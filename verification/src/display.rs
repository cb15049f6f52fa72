//! The list of queued jobs: which columns of the queue's output are shown.

use crate::text::blanks;
use crate::text::join_with;
use crate::text::push_char;
use crate::text::push_chars;
use crate::text::same_chars;
use crate::text::split_on;
use crate::text::split;
use crate::text::string_of;
use crate::text::texts;
use crate::text::to_chars;
use crate::text::trim_end_len;
use crate::text::trim_end;
use crate::text::views;
use vstd::prelude::*;

verus! {

/// Which resource the list of queued jobs is about.
#[derive(Clone, Copy, Debug, PartialEq, Eq, PartialOrd, Ord, Structural)]
pub enum DisplayMode {
    Cpu,
    Ram,
}

/// The titles of the columns that a mode shows.
pub open spec fn fields_of(mode: DisplayMode) -> Seq<Seq<char>> {
    seq![
        "JOBID"@,
        "PARTITION"@,
        "NAME"@,
        "USER"@,
        "STATE"@,
        "TIME"@,
        "TIME_LIMI"@,
        "NODE"@,
        match mode {
            DisplayMode::Cpu => "NODES"@,
            DisplayMode::Ram => ""@,
        },
    ]
}

impl DisplayMode {
    /// The titles of the columns that this mode shows.
    pub fn get_fields(&self) -> (r: Vec<String>)
        ensures
            texts(r@) == fields_of(*self),
    {
        let mut fields: Vec<String> = Vec::new();
        fields.push(string_of("JOBID"));
        fields.push(string_of("PARTITION"));
        fields.push(string_of("NAME"));
        fields.push(string_of("USER"));
        fields.push(string_of("STATE"));
        fields.push(string_of("TIME"));
        fields.push(string_of("TIME_LIMI"));
        fields.push(string_of("NODE"));
        match self {
            DisplayMode::Cpu => fields.push(string_of("NODES")),
            DisplayMode::Ram => fields.push(string_of("")),
        }
        assert(texts(fields@) =~= fields_of(*self));
        fields
    }
}

/// The title that a column of the queue's output is shown under.
pub open spec fn renamed(field: Seq<char>) -> Seq<char> {
    if field == "NODELIST(REASON)"@ {
        "NODE"@
    } else {
        field
    }
}

/// The title that a column of the queue's output is shown under.
pub fn rename_field(field_raw: &str) -> (r: String)
    ensures
        r@ == renamed(field_raw@),
{
    if crate::text::same_text(field_raw, "NODELIST(REASON)") {
        string_of("NODE")
    } else {
        string_of(field_raw)
    }
}

/// `s`, filled with blanks at its end to `width` characters where it is
/// shorter.
pub open spec fn padded(s: Seq<char>, width: nat) -> Seq<char> {
    if s.len() >= width {
        s
    } else {
        s + blanks((width - s.len()) as nat)
    }
}

/// Whether the column at place `i` is shown: its title is wanted and
/// stands at no earlier place.
pub open spec fn shown(header: Seq<Seq<char>>, wanted: Seq<Seq<char>>, i: int) -> bool {
    &&& 0 <= i < header.len()
    &&& wanted.contains(header[i])
    &&& forall|j: int| 0 <= j < i ==> header[j] != header[i]
}

/// The cells of the first `n` fields of `line` that are shown, each padded
/// to 12 characters.
pub open spec fn cells(header: Seq<Seq<char>>, wanted: Seq<Seq<char>>, line: Seq<Seq<char>>, n: int)
    -> Seq<Seq<char>>
    decreases n,
{
    if n <= 0 {
        Seq::empty()
    } else if shown(header, wanted, n - 1) {
        cells(header, wanted, line, n - 1).push(padded(line[n - 1], 12))
    } else {
        cells(header, wanted, line, n - 1)
    }
}

/// The lines of `text`, each split into its fields, the titles of the
/// first line renamed.
pub open spec fn queue_table(text: Seq<char>) -> Seq<Seq<Seq<char>>> {
    let lines = split_on(trim_end(text, '\n'), '\n');
    Seq::new(
        lines.len(),
        |i: int|
            if i == 0 {
                split_on(lines[i], '|').map_values(|f: Seq<char>| renamed(f))
            } else {
                split_on(lines[i], '|')
            },
    )
}

/// The lines of the list of queued jobs: of each line of the queue's
/// output the fields that are shown, with a blank between them.
pub open spec fn display_of(text: Seq<char>, mode: DisplayMode) -> Seq<Seq<char>> {
    let table = queue_table(text);
    Seq::new(
        table.len(),
        |i: int| join_with(cells(table[0], fields_of(mode), table[i], table[i].len() as int), ' '),
    )
}

/// Whether `list` holds the text `t`.
fn holds(list: &Vec<Vec<char>>, t: &Vec<char>) -> (r: bool)
    ensures
        r == views(list@).contains(t@),
{
    let mut i: usize = 0;
    while i < list.len()
        invariant
            i <= list.len(),
            forall|k: int| 0 <= k < i ==> views(list@)[k] != t@,
        decreases list.len() - i,
    {
        assert(t@.subrange(0, t.len() as int) =~= t@);
        if same_chars(t, 0, t.len(), &list[i]) {
            assert(views(list@)[i as int] == t@);
            return true;
        }
        i += 1;
    }
    false
}

/// For each place of `header`, whether the column there is shown.
fn shown_columns(header: &Vec<Vec<char>>, wanted: &Vec<Vec<char>>) -> (r: Vec<bool>)
    ensures
        r.len() == header.len(),
        forall|i: int|
            0 <= i < header.len() ==> #[trigger] r[i] == shown(views(header@), views(wanted@), i),
{
    let mut keep: Vec<bool> = Vec::new();
    let mut i: usize = 0;
    while i < header.len()
        invariant
            i <= header.len(),
            keep.len() == i,
            forall|k: int|
                0 <= k < i ==> #[trigger] keep[k] == shown(views(header@), views(wanted@), k),
        decreases header.len() - i,
    {
        let mut first = true;
        let mut j: usize = 0;
        while j < i
            invariant
                j <= i < header.len(),
                first == forall|k: int| 0 <= k < j ==> views(header@)[k] != views(header@)[i as int],
            decreases i - j,
        {
            let title = &header[i];
            assert(title@.subrange(0, title.len() as int) =~= title@);
            if same_chars(title, 0, title.len(), &header[j]) {
                assert(views(header@)[j as int] == views(header@)[i as int]);
                first = false;
            }
            j += 1;
        }
        let wanted_here = holds(wanted, &header[i]);
        keep.push(first && wanted_here);
        i += 1;
    }
    keep
}

/// Appends to `s` the field `field`, padded to 12 characters.
fn push_padded(s: &mut String, field: &Vec<char>)
    ensures
        final(s)@ == old(s)@ + padded(field@, 12),
{
    push_chars(s, field);
    let mut n: usize = field.len();
    while n < 12
        invariant
            field.len() <= n,
            n <= 12 || n == field.len(),
            s@ == old(s)@ + field@ + blanks((n - field.len()) as nat),
        decreases 12 - n,
    {
        push_char(s, ' ');
        assert(blanks((n + 1 - field.len()) as nat) =~= blanks((n - field.len()) as nat).push(' '));
        n += 1;
    }
    assert(s@ =~= old(s)@ + padded(field@, 12)) by {
        if field.len() >= 12 {
            assert(blanks(0) =~= Seq::<char>::empty());
        }
    }
}

/// The line of the list for one line of the queue's output.
fn display_line(
    line: &Vec<Vec<char>>,
    keep: &Vec<bool>,
    Ghost(header): Ghost<Seq<Seq<char>>>,
    Ghost(wanted): Ghost<Seq<Seq<char>>>,
) -> (r: String)
    requires
        keep.len() == header.len(),
        forall|i: int| 0 <= i < header.len() ==> #[trigger] keep[i] == shown(header, wanted, i),
    ensures
        r@ == join_with(cells(header, wanted, views(line@), line.len() as int), ' '),
{
    let ghost fields = views(line@);
    let mut r = String::new();
    let mut any = false;
    let mut k: usize = 0;
    while k < line.len()
        invariant
            k <= line.len(),
            fields == views(line@),
            keep.len() == header.len(),
            forall|i: int| 0 <= i < header.len() ==> #[trigger] keep[i] == shown(header, wanted, i),
            any == (cells(header, wanted, fields, k as int).len() > 0),
            r@ == join_with(cells(header, wanted, fields, k as int), ' '),
        decreases line.len() - k,
    {
        let ghost before = cells(header, wanted, fields, k as int);
        if k < keep.len() && keep[k] {
            if any {
                push_char(&mut r, ' ');
            }
            push_padded(&mut r, &line[k]);
            any = true;
            proof {
                let now = cells(header, wanted, fields, k + 1);
                assert(fields[k as int] == line[k as int]@);
                assert(now == before.push(padded(fields[k as int], 12)));
                assert(now.drop_last() =~= before);
                if before.len() == 0 {
                    assert(r@ =~= join_with(now, ' '));
                } else {
                    assert(r@ =~= join_with(now, ' '));
                }
            }
        }
        k += 1;
    }
    r
}

/// Renames the titles of a header.
fn rename_header(header: &Vec<Vec<char>>) -> (r: Vec<Vec<char>>)
    ensures
        views(r@) == views(header@).map_values(|f: Seq<char>| renamed(f)),
{
    let mut r: Vec<Vec<char>> = Vec::new();
    let mut i: usize = 0;
    while i < header.len()
        invariant
            i <= header.len(),
            r.len() == i,
            forall|k: int| 0 <= k < i ==> (#[trigger] r[k])@ == renamed(header[k]@),
        decreases header.len() - i,
    {
        let old_title = to_chars("NODELIST(REASON)");
        let title = &header[i];
        assert(title@.subrange(0, title.len() as int) =~= title@);
        if same_chars(title, 0, title.len(), &old_title) {
            r.push(to_chars("NODE"));
        } else {
            r.push(title.clone());
        }
        i += 1;
    }
    assert(views(r@) =~= views(header@).map_values(|f: Seq<char>| renamed(f)));
    r
}

/// The texts of `list`, as characters.
fn chars_of(list: &Vec<String>) -> (r: Vec<Vec<char>>)
    ensures
        views(r@) == texts(list@),
{
    let mut r: Vec<Vec<char>> = Vec::new();
    let mut i: usize = 0;
    while i < list.len()
        invariant
            i <= list.len(),
            r.len() == i,
            forall|k: int| 0 <= k < i ==> (#[trigger] r[k])@ == list[k]@,
        decreases list.len() - i,
    {
        r.push(to_chars(list[i].as_str()));
        i += 1;
    }
    assert(views(r@) =~= texts(list@));
    r
}

/// Builds the list of queued jobs from the queue's output: of each line,
/// the header among them, the columns that the mode shows.
pub fn build_display(job_raw_output: String, display_mode: &DisplayMode) -> (lines: Vec<String>)
    ensures
        texts(lines@) == display_of(job_raw_output@, *display_mode),
{
    let text = to_chars(job_raw_output.as_str());
    let n = trim_end_len(&text, '\n');
    let mut trimmed = text.clone();
    trimmed.truncate(n);
    assert(trimmed@ =~= trim_end(text@, '\n'));
    let lines = split(&trimmed, '\n');
    proof {
        crate::text::lemma_split_on(trimmed@, '\n');
    }
    let ghost table = queue_table(job_raw_output@);
    let ghost wanted = fields_of(*display_mode);
    let fields_keep = chars_of(&display_mode.get_fields());
    let first_line = split(&lines[0], '|');
    let all_fields = rename_header(&first_line);
    assert(views(lines@)[0] == lines[0]@);
    assert(views(all_fields@) == table[0]);
    let indicies = shown_columns(&all_fields, &fields_keep);
    let mut job_lines: Vec<String> = Vec::new();
    let mut i: usize = 0;
    while i < lines.len()
        invariant
            i <= lines.len(),
            lines.len() >= 1,
            views(lines@) == split_on(trim_end(job_raw_output@, '\n'), '\n'),
            table == queue_table(job_raw_output@),
            wanted == fields_of(*display_mode),
            views(all_fields@) == table[0],
            indicies.len() == table[0].len(),
            forall|k: int|
                0 <= k < table[0].len() ==> #[trigger] indicies[k] == shown(table[0], wanted, k),
            job_lines.len() == i,
            forall|k: int|
                0 <= k < i ==> (#[trigger] job_lines[k])@ == join_with(
                    cells(table[0], wanted, table[k], table[k].len() as int),
                    ' ',
                ),
        decreases lines.len() - i,
    {
        assert(views(lines@)[i as int] == lines[i as int]@);
        let line = if i == 0 {
            display_line(&all_fields, &indicies, Ghost(table[0]), Ghost(wanted))
        } else {
            let line_fields = split(&lines[i], '|');
            assert(views(line_fields@) == table[i as int]);
            display_line(&line_fields, &indicies, Ghost(table[0]), Ghost(wanted))
        };
        job_lines.push(line);
        i += 1;
    }
    assert(texts(job_lines@) =~= display_of(job_raw_output@, *display_mode));
    job_lines
}

} // verus!
