//! What the screen needs to know of a row: its colours.

use crate::jobs::job_parser::JobState;
use vstd::prelude::*;

verus! {

/// The colours that rows are drawn in.
#[derive(Clone, Copy, Debug, PartialEq, Eq, Structural)]
pub enum Color {
    Black,
    DarkGray,
    Green,
    LightGreen,
    Red,
    LightRed,
    White,
    Cyan,
}

/// Something that is drawn in a colour of its own.
pub trait Colorable {
    /// The colour that this is drawn in.
    spec fn color(&self) -> Color;

    /// The colour that this is drawn in.
    fn to_color(&self) -> (c: Color)
        ensures
            c == self.color(),
    ;
}

impl Colorable for JobState {
    open spec fn color(&self) -> Color {
        match self {
            JobState::Completed => Color::Green,
            JobState::Running => Color::LightGreen,
            JobState::Failed => Color::Red,
            JobState::Pending => Color::White,
            JobState::Header => Color::White,
            JobState::Cancelled(_) => Color::LightRed,
            JobState::Unknown(_) => Color::Cyan,
        }
    }

    fn to_color(&self) -> (c: Color) {
        match self {
            JobState::Completed => Color::Green,
            JobState::Running => Color::LightGreen,
            JobState::Failed => Color::Red,
            JobState::Pending => Color::White,
            JobState::Header => Color::White,
            JobState::Cancelled(_) => Color::LightRed,
            JobState::Unknown(_) => Color::Cyan,
        }
    }
}

/// Whether a row is the highlighted one.
#[derive(Clone, Copy, Debug, PartialEq, Eq, Structural)]
pub enum LineType {
    Normal,
    Highlighted,
}

impl Colorable for LineType {
    open spec fn color(&self) -> Color {
        match self {
            LineType::Normal => Color::Black,
            LineType::Highlighted => Color::DarkGray,
        }
    }

    fn to_color(&self) -> (c: Color) {
        match self {
            LineType::Normal => Color::Black,
            LineType::Highlighted => Color::DarkGray,
        }
    }
}

/// For each of `rows` rows, whether it is the highlighted one.
pub open spec fn line_types(rows: nat, highlighted: Option<usize>) -> Seq<LineType> {
    Seq::new(
        rows,
        |i: int|
            if highlighted == Some(i as usize) {
                LineType::Highlighted
            } else {
                LineType::Normal
            },
    )
}

/// For each of `rows` rows, whether it is the highlighted one.
pub fn build_list(rows: usize, highlighted: Option<usize>) -> (r: Vec<LineType>)
    ensures
        r@ == line_types(rows as nat, highlighted),
{
    let mut r: Vec<LineType> = Vec::new();
    let mut i: usize = 0;
    while i < rows
        invariant
            i <= rows,
            r@ == line_types(i as nat, highlighted),
        decreases rows - i,
    {
        let line_type = match highlighted {
            Some(highlighted_i) => if highlighted_i == i {
                LineType::Highlighted
            } else {
                LineType::Normal
            },
            None => LineType::Normal,
        };
        r.push(line_type);
        assert(r@ =~= line_types((i + 1) as nat, highlighted));
        i += 1;
    }
    r
}

} // verus!
