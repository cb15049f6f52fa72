//! The viewer of a log file: a text buffer of `tui_textarea` and the keys
//! that move through it.

use crate::text::split_on;
use crate::text::split;
use crate::text::texts;
use crate::text::to_chars;
use crate::text::views;
use tui_textarea::CursorMove;
use tui_textarea::Scrolling;
use tui_textarea::TextArea;
use vstd::prelude::*;

verus! {

/// A move of the cursor.
#[derive(Clone, Copy, Debug, PartialEq, Eq, Structural)]
pub enum CursorStep {
    Back,
    Down,
    Up,
    Forward,
    WordForward,
    WordBack,
    Head,
    End,
    Top,
    Bottom,
}

/// A move of the window over the text.
#[derive(Clone, Copy, Debug, PartialEq, Eq, Structural)]
pub enum Scroll {
    Delta { rows: i16, cols: i16 },
    HalfPageDown,
    HalfPageUp,
    PageDown,
    PageUp,
}

/// What a key asks of the viewer.
#[derive(Clone, Copy, Debug, PartialEq, Eq, Structural)]
pub enum EditorCommand {
    Move(CursorStep),
    Scroll(Scroll),
}

/// What the key `c` asks of the viewer, if anything.
pub open spec fn command_of(c: char) -> Option<EditorCommand> {
    if c == 'h' {
        Some(EditorCommand::Move(CursorStep::Back))
    } else if c == 'j' {
        Some(EditorCommand::Move(CursorStep::Down))
    } else if c == 'k' {
        Some(EditorCommand::Move(CursorStep::Up))
    } else if c == 'l' {
        Some(EditorCommand::Move(CursorStep::Forward))
    } else if c == 'w' {
        Some(EditorCommand::Move(CursorStep::WordForward))
    } else if c == 'b' {
        Some(EditorCommand::Move(CursorStep::WordBack))
    } else if c == '^' {
        Some(EditorCommand::Move(CursorStep::Head))
    } else if c == '$' {
        Some(EditorCommand::Move(CursorStep::End))
    } else if c == 'e' {
        Some(EditorCommand::Scroll(Scroll::Delta { rows: 1, cols: 0 }))
    } else if c == 'y' {
        Some(EditorCommand::Scroll(Scroll::Delta { rows: (-1i16), cols: 0 }))
    } else if c == 'D' {
        Some(EditorCommand::Scroll(Scroll::HalfPageDown))
    } else if c == 'U' {
        Some(EditorCommand::Scroll(Scroll::HalfPageUp))
    } else if c == 'F' {
        Some(EditorCommand::Scroll(Scroll::PageDown))
    } else if c == 'B' {
        Some(EditorCommand::Scroll(Scroll::PageUp))
    } else if c == 'g' {
        Some(EditorCommand::Move(CursorStep::Top))
    } else if c == 'G' {
        Some(EditorCommand::Move(CursorStep::Bottom))
    } else {
        None
    }
}

/// What the key `c` asks of the viewer, if anything.
pub fn command_for(c: char) -> (r: Option<EditorCommand>)
    ensures
        r == command_of(c),
{
    match c {
        'h' => Some(EditorCommand::Move(CursorStep::Back)),
        'j' => Some(EditorCommand::Move(CursorStep::Down)),
        'k' => Some(EditorCommand::Move(CursorStep::Up)),
        'l' => Some(EditorCommand::Move(CursorStep::Forward)),
        'w' => Some(EditorCommand::Move(CursorStep::WordForward)),
        'b' => Some(EditorCommand::Move(CursorStep::WordBack)),
        '^' => Some(EditorCommand::Move(CursorStep::Head)),
        '$' => Some(EditorCommand::Move(CursorStep::End)),
        'e' => Some(EditorCommand::Scroll(Scroll::Delta { rows: 1, cols: 0 })),
        'y' => Some(EditorCommand::Scroll(Scroll::Delta { rows: -1, cols: 0 })),
        'D' => Some(EditorCommand::Scroll(Scroll::HalfPageDown)),
        'U' => Some(EditorCommand::Scroll(Scroll::HalfPageUp)),
        'F' => Some(EditorCommand::Scroll(Scroll::PageDown)),
        'B' => Some(EditorCommand::Scroll(Scroll::PageUp)),
        'g' => Some(EditorCommand::Move(CursorStep::Top)),
        'G' => Some(EditorCommand::Move(CursorStep::Bottom)),
        _ => None,
    }
}

/// The viewer of a text: a buffer of `tui_textarea`, which holds the lines
/// of the text, a cursor and a window over the text.
#[verifier::external_body]
pub struct Editor {
    pub textarea: TextArea<'static>,
}

/// The lines of text that a viewer holds.
pub uninterp spec fn textarea_lines(editor: Editor) -> Seq<Seq<char>>;

/// The row and the column of a viewer's cursor, counted from 0.
pub uninterp spec fn textarea_cursor(editor: Editor) -> (usize, usize);

/// The window of a viewer over its text: the row and the column of the
/// text that stand at its top left corner, its width and its height.
pub uninterp spec fn textarea_window(editor: Editor) -> (u16, u16, u16, u16);

/// Where `TextArea::move_cursor` puts the cursor of a buffer with the
/// lines `lines` and the cursor at `cursor`.
pub uninterp spec fn cursor_after_move(
    lines: Seq<Seq<char>>,
    cursor: (usize, usize),
    step: CursorStep,
) -> (usize, usize);

/// Where `TextArea::scroll` puts the cursor and the window of a buffer
/// with the lines `lines`, the cursor at `cursor` and the window `window`.
pub uninterp spec fn after_scroll(
    lines: Seq<Seq<char>>,
    cursor: (usize, usize),
    window: (u16, u16, u16, u16),
    scroll: Scroll,
) -> ((usize, usize), (u16, u16, u16, u16));

/// Calls `TextArea::new`.
///
/// Assumed of `tui_textarea`: the buffer holds the lines that it was made
/// of, or one empty line where it was made of none; its cursor stands at
/// the beginning of the text, and its window, which only drawing sizes, is
/// empty and at the beginning of the text.
#[verifier::external_body]
fn new_textarea(lines: Vec<String>) -> (editor: Editor)
    ensures
        textarea_lines(editor) == if lines.len() == 0 {
            seq![Seq::<char>::empty()]
        } else {
            texts(lines@)
        },
        textarea_cursor(editor) == (0usize, 0usize),
        textarea_window(editor) == (0u16, 0u16, 0u16, 0u16),
{
    Editor { textarea: TextArea::new(lines) }
}

/// Calls `TextArea::move_cursor`.
///
/// Assumed of `tui_textarea`: moving the cursor leaves the text and the
/// window, its width and height among it, as they are, and where the
/// cursor comes to stand depends on the text, on where it stood and on the
/// move alone.
#[verifier::external_body]
fn move_cursor(editor: &mut Editor, step: CursorStep)
    ensures
        textarea_lines(*final(editor)) == textarea_lines(*old(editor)),
        textarea_window(*final(editor)) == textarea_window(*old(editor)),
        textarea_cursor(*final(editor)) == cursor_after_move(
            textarea_lines(*old(editor)),
            textarea_cursor(*old(editor)),
            step,
        ),
{
    editor.textarea.move_cursor(
        match step {
            CursorStep::Back => CursorMove::Back,
            CursorStep::Down => CursorMove::Down,
            CursorStep::Up => CursorMove::Up,
            CursorStep::Forward => CursorMove::Forward,
            CursorStep::WordForward => CursorMove::WordForward,
            CursorStep::WordBack => CursorMove::WordBack,
            CursorStep::Head => CursorMove::Head,
            CursorStep::End => CursorMove::End,
            CursorStep::Top => CursorMove::Top,
            CursorStep::Bottom => CursorMove::Bottom,
        },
    )
}

/// The greatest height of a window, in rows, by which `TextArea::scroll`
/// can scroll a page: it counts the rows of a page in 16 bits with a sign,
/// and negates the count.
pub const MAX_WINDOW_HEIGHT: u16 = 32767;

/// Calls `TextArea::scroll`.
///
/// Assumed of `tui_textarea`: scrolling leaves the text and the width and
/// the height of the window as they are, and where the window and the
/// cursor come to stand depends on the text, on where they stood and on
/// the scroll alone. It negates a negative count of rows or columns, so
/// the least count is left out, and for a scroll by pages the height of
/// the window is such a count, so a window higher than
/// `MAX_WINDOW_HEIGHT` is left out.
#[verifier::external_body]
fn scroll(editor: &mut Editor, scroll: Scroll)
    requires
        scroll matches Scroll::Delta { rows, cols } ==> rows > i16::MIN && cols > i16::MIN,
        !(scroll is Delta) ==> textarea_window(*old(editor)).3 <= MAX_WINDOW_HEIGHT,
    ensures
        textarea_lines(*final(editor)) == textarea_lines(*old(editor)),
        textarea_window(*final(editor)).2 == textarea_window(*old(editor)).2,
        textarea_window(*final(editor)).3 == textarea_window(*old(editor)).3,
        (textarea_cursor(*final(editor)), textarea_window(*final(editor))) == after_scroll(
            textarea_lines(*old(editor)),
            textarea_cursor(*old(editor)),
            textarea_window(*old(editor)),
            scroll,
        ),
{
    editor.textarea.scroll(
        match scroll {
            Scroll::Delta { rows, cols } => Scrolling::Delta { rows, cols },
            Scroll::HalfPageDown => Scrolling::HalfPageDown,
            Scroll::HalfPageUp => Scrolling::HalfPageUp,
            Scroll::PageDown => Scrolling::PageDown,
            Scroll::PageUp => Scrolling::PageUp,
        },
    )
}

impl Editor {
    /// The lines of text in the viewer.
    pub open spec fn lines(self) -> Seq<Seq<char>> {
        textarea_lines(self)
    }

    /// The row and the column of the cursor, counted from 0.
    pub open spec fn cursor(self) -> (usize, usize) {
        textarea_cursor(self)
    }

    /// The window over the text: the row and the column of the text at its
    /// top left corner, its width and its height.
    pub open spec fn window(self) -> (u16, u16, u16, u16) {
        textarea_window(self)
    }

    /// Whether the window is one that the buffer can scroll by pages: it is
    /// at most `MAX_WINDOW_HEIGHT` rows high. Drawing the viewer sets the
    /// height of its window to that of the place that it is drawn in.
    pub open spec fn wf(self) -> bool {
        self.window().3 <= MAX_WINDOW_HEIGHT
    }

    /// Whether `after` is the viewer that the key `c` makes of this one.
    /// A key that moves the cursor puts it where the buffer's move puts
    /// it, and leaves the window. A key that scrolls puts the window and
    /// the cursor where the buffer's scroll puts them, and leaves the
    /// width and the height of the window. Any other key changes nothing.
    /// The text stays as it is, whatever the key.
    pub open spec fn sent(self, c: char, after: Editor) -> bool {
        &&& after.lines() == self.lines()
        &&& match command_of(c) {
            Some(EditorCommand::Move(step)) => {
                &&& after.cursor() == cursor_after_move(self.lines(), self.cursor(), step)
                &&& after.window() == self.window()
            },
            Some(EditorCommand::Scroll(by)) => {
                &&& (after.cursor(), after.window()) == after_scroll(
                    self.lines(),
                    self.cursor(),
                    self.window(),
                    by,
                )
                &&& after.window().2 == self.window().2
                &&& after.window().3 == self.window().3
            },
            None => after == self,
        }
    }

    /// A viewer of `text`, a line of the buffer for each line of the text,
    /// the cursor at the beginning of the text.
    pub fn new(text: &str) -> (r: Editor)
        ensures
            r.lines() == split_on(text@, '\n'),
            r.cursor() == (0usize, 0usize),
            r.window() == (0u16, 0u16, 0u16, 0u16),
            r.wf(),
    {
        let chars = to_chars(text);
        let pieces = split(&chars, '\n');
        proof {
            crate::text::lemma_split_on(text@, '\n');
        }
        let mut vec_lines: Vec<String> = Vec::new();
        let mut i: usize = 0;
        while i < pieces.len()
            invariant
                i <= pieces.len(),
                vec_lines.len() == i,
                forall|k: int| 0 <= k < i ==> (#[trigger] vec_lines[k])@ == pieces[k]@,
            decreases pieces.len() - i,
        {
            vec_lines.push(crate::text::to_string(&pieces[i]));
            i += 1;
        }
        assert(texts(vec_lines@) =~= views(pieces@));
        new_textarea(vec_lines)
    }

    /// Does what the key `c_sent` asks: moves the cursor, or the window
    /// and with it the cursor. The text stays as it is, whatever the key,
    /// and a key that asks for nothing changes nothing.
    pub fn send_char(&mut self, c_sent: char)
        requires
            old(self).wf(),
        ensures
            final(self).wf(),
            old(self).sent(c_sent, *final(self)),
    {
        match command_for(c_sent) {
            Some(EditorCommand::Move(step)) => move_cursor(self, step),
            Some(EditorCommand::Scroll(by)) => scroll(self, by),
            None => {},
        }
    }
}

} // verus!
