//! The parts of the file tools that compute: which lines of a file a view
//! shows, and how they are shown. Reading and writing the files is the
//! caller's part.

use crate::decimal::{digits_of, push_digits};
use crate::models::text_of;
use crate::text::{chars_of, push_range, push_str, string_of};
use crate::tools::utils::{
    joined, lines_of, make_numbered_output, numbered_output, split_lines, texts,
};
use vstd::prelude::*;

verus! {

/// How many lines around an edit a snippet shows.
pub const SNIPPET_CONTEXT_WINDOW: usize = 4;

/// Shows a snippet with a number before each line, counting from
/// `start_line`; the description of the snippet is not shown.
pub fn make_output(snippet_content: &str, _snippet_description: &str, start_line: usize) -> (output:
    String)
    ensures
        output@ == numbered_output(snippet_content@, start_line as nat),
{
    make_numbered_output(snippet_content, start_line)
}

/// Which lines of a file of `num_lines` lines a view shows.
pub enum ViewSelection {
    /// The lines from number `start` to number `end`, both counted from 1.
    Range { start: nat, end: nat },
    /// The first line asked for is none of the file's.
    StartOutOfRange { asked: u64, num_lines: nat },
    /// The last line asked for stands before the first.
    EndBeforeStart { last: u64, first: u64 },
}

/// The lines that a view shows: from `start_line`, or from the first line,
/// to `end_line`, or to the last line; a view never ends behind the last
/// line. A first line that is not in the file, and a last line before the
/// first, are refused.
pub open spec fn view_selection(start_line: Option<u64>, end_line: Option<u64>, num_lines: nat) -> ViewSelection {
    let start = match start_line {
        Some(start) => start as nat,
        None => 1,
    };
    let end = match end_line {
        Some(end) if end < num_lines => end as nat,
        _ => num_lines,
    };
    if start_line is Some && (start < 1 || start > num_lines) {
        ViewSelection::StartOutOfRange { asked: start_line->0, num_lines }
    } else if start_line is Some && end_line is Some && end_line->0 < start_line->0 {
        ViewSelection::EndBeforeStart { last: end_line->0, first: start_line->0 }
    } else {
        ViewSelection::Range { start, end }
    }
}

/// What a view of `content` shows: the selected lines with their numbers,
/// or the reason why the selection is refused.
pub open spec fn view_text(content: Seq<char>, start_line: Option<u64>, end_line: Option<u64>) -> Seq<char> {
    let lines = lines_of(content);
    match view_selection(start_line, end_line, lines.len()) {
        ViewSelection::Range { start, end } => numbered_output(
            joined(lines.subrange(start - 1, if end + 1 >= start { end as int } else { start - 1 })),
            start,
        ),
        ViewSelection::StartOutOfRange { asked, num_lines } => "Error: start_line "@ + digits_of(
            asked as nat,
        ) + " should be within the range [1, "@ + digits_of(num_lines) + "]."@,
        ViewSelection::EndBeforeStart { last, first } => "Error: end_line "@ + digits_of(
            last as nat,
        ) + " should be greater than or equal to start_line "@ + digits_of(first as nat) + "."@,
    }
}

/// Appends `lines[from..to]`, with a line feed between each two, to `out`.
pub fn push_joined(out: &mut Vec<char>, lines: &Vec<Vec<char>>, from: usize, to: usize)
    requires
        from <= to <= lines@.len(),
    ensures
        final(out)@ == old(out)@ + joined(texts(lines@).subrange(from as int, to as int)),
{
    let ghost before = out@;
    let ghost shown = texts(lines@).subrange(from as int, to as int);
    let mut i: usize = from;
    assert(shown.take(0) =~= Seq::<Seq<char>>::empty());
    assert(before + joined(shown.take(0)) =~= before);
    while i < to
        invariant
            from <= i <= to <= lines@.len(),
            shown == texts(lines@).subrange(from as int, to as int),
            out@ == before + joined(shown.take(i - from)),
        decreases to - i,
    {
        if i > from {
            out.push('\n');
        }
        let ghost mid = out@;
        push_range(out, lines[i].as_slice(), 0, lines[i].len());
        proof {
            let next = shown.take(i + 1 - from);
            assert(next.drop_last() =~= shown.take(i - from));
            assert(next.last() == lines@[i as int]@);
            assert(lines@[i as int]@.subrange(0, lines@[i as int]@.len() as int) =~= lines@[i as int]@);
            assert(out@ =~= before + joined(next));
        }
        i += 1;
    }
    assert(shown.take(to - from) =~= shown);
}

/// Shows the lines of `content` that a view selects, with their numbers, or
/// says why the selection is refused.
pub fn view_file(content: &str, start_line: Option<u64>, end_line: Option<u64>) -> (output: String)
    ensures
        output@ == view_text(content@, start_line, end_line),
{
    let chars = chars_of(content);
    let lines = split_lines(chars.as_slice());
    let n: usize = lines.len();
    let mut out: Vec<char> = Vec::new();
    if let Some(start) = start_line {
        if start < 1 || start > n as u64 {
            push_str(&mut out, "Error: start_line ");
            push_digits(start as u128, &mut out);
            push_str(&mut out, " should be within the range [1, ");
            push_digits(n as u128, &mut out);
            push_str(&mut out, "].");
            return string_of(out.as_slice());
        }
        if let Some(end) = end_line {
            if end < start {
                push_str(&mut out, "Error: end_line ");
                push_digits(end as u128, &mut out);
                push_str(&mut out, " should be greater than or equal to start_line ");
                push_digits(start as u128, &mut out);
                push_str(&mut out, ".");
                return string_of(out.as_slice());
            }
        }
    }
    let start: usize = match start_line {
        Some(start) => start as usize,
        None => 1,
    };
    let end: usize = match end_line {
        Some(end) => if end < n as u64 {
            end as usize
        } else {
            n
        },
        None => n,
    };
    let from: usize = start - 1;
    let to: usize = if end >= from {
        end
    } else {
        from
    };
    let mut snippet: Vec<char> = Vec::new();
    push_joined(&mut snippet, &lines, from, to);
    let snippet_text = string_of(snippet.as_slice());
    make_numbered_output(snippet_text.as_str(), start)
}

/// What a directory listing knows of an entry.
#[derive(Debug, PartialEq, Eq)]
pub struct DirEntryInfo {
    /// The entry's name.
    pub name: String,
    /// The entry is a directory.
    pub is_dir: bool,
    /// The text of the file, where the entry is a file that could be read.
    pub content: Option<String>,
}

/// A `DirEntryInfo` as a mathematical value.
pub struct DirEntryView {
    pub name: Seq<char>,
    pub is_dir: bool,
    pub content: Option<Seq<char>>,
}

impl View for DirEntryInfo {
    type V = DirEntryView;

    open spec fn view(&self) -> DirEntryView {
        DirEntryView {
            name: self.name@,
            is_dir: self.is_dir,
            content: text_of(self.content),
        }
    }
}

/// The name begins with a dot.
pub open spec fn is_hidden(name: Seq<char>) -> bool {
    name.len() > 0 && name[0] == '.'
}

/// How a listing shows an entry: a directory by its name and a slash, a
/// file by its name and, where it could be read, the number of its lines.
pub open spec fn listed_line(entry: DirEntryView) -> Seq<char> {
    if entry.is_dir {
        entry.name + "/"@
    } else {
        match entry.content {
            Some(content) => entry.name + " ("@ + digits_of(lines_of(content).len()) + (if lines_of(
                content,
            ).len() == 1 {
                " line)"@
            } else {
                " lines)"@
            }),
            None => entry.name,
        }
    }
}

/// The lines of a listing, in the order of the entries: one for each entry
/// that is not hidden.
pub open spec fn listed(entries: Seq<DirEntryView>) -> Seq<Seq<char>>
    decreases entries.len(),
{
    if entries.len() == 0 {
        Seq::empty()
    } else if is_hidden(entries.last().name) {
        listed(entries.drop_last())
    } else {
        listed(entries.drop_last()).push(listed_line(entries.last()))
    }
}

/// `a` stands at or before `b` in the order of strings: the order of the
/// first characters in which the two differ, and a prefix before what it
/// is a prefix of.
pub open spec fn text_le(a: Seq<char>, b: Seq<char>) -> bool
    decreases a.len(),
{
    if a.len() == 0 {
        true
    } else if b.len() == 0 {
        false
    } else if a[0] != b[0] {
        a[0] < b[0]
    } else {
        text_le(a.skip(1), b.skip(1))
    }
}

/// The strings of `list` stand in order.
pub open spec fn ordered(list: Seq<Seq<char>>) -> bool {
    forall|i: int, j: int| 0 <= i <= j < list.len() ==> text_le(#[trigger] list[i], #[trigger] list[j])
}

/// The values of a run of strings.
pub open spec fn strings(list: Seq<String>) -> Seq<Seq<char>> {
    Seq::new(list.len(), |i: int| list[i]@)
}

/// `<[String]>::sort`: puts the strings in ascending order, which for
/// strings is the order of their bytes and so of their characters, and
/// neither adds nor drops one.
#[verifier::external_body]
pub(crate) fn sort_strings(list: &mut Vec<String>)
    ensures
        ordered(strings(final(list)@)),
        strings(final(list)@).to_multiset() == strings(old(list)@).to_multiset(),
{
    list.sort();
}

/// How a listing shows an entry.
pub fn entry_line(entry: &DirEntryInfo) -> (line: String)
    ensures
        line@ == listed_line(entry@),
{
    let mut out: Vec<char> = Vec::new();
    push_str(&mut out, entry.name.as_str());
    if entry.is_dir {
        out.push('/');
        assert(out@ =~= listed_line(entry@)) by {
            reveal_strlit("/");
            assert("/"@ =~= seq!['/']);
        }
    } else if let Some(content) = &entry.content {
        let chars = chars_of(content.as_str());
        let count: usize = split_lines(chars.as_slice()).len();
        push_str(&mut out, " (");
        push_digits(count as u128, &mut out);
        if count == 1 {
            push_str(&mut out, " line)");
        } else {
            push_str(&mut out, " lines)");
        }
    }
    string_of(out.as_slice())
}

/// Lists a directory: one line for each entry that is not hidden, in the
/// order of strings, with a line feed between each two.
pub fn list_directory(entries: &Vec<DirEntryInfo>) -> (output: String)
    ensures
        exists|listing: Seq<Seq<char>>|
            {
                &&& ordered(listing)
                &&& listing.to_multiset() == listed(
                    Seq::new(entries@.len(), |i: int| entries@[i]@),
                ).to_multiset()
                &&& output@ == joined(listing)
            },
{
    let ghost views = Seq::new(entries@.len(), |i: int| entries@[i]@);
    let mut shown: Vec<String> = Vec::new();
    let mut i: usize = 0;
    assert(views.take(0) =~= Seq::<DirEntryView>::empty());
    assert(strings(shown@) =~= Seq::<Seq<char>>::empty());
    while i < entries.len()
        invariant
            i <= entries@.len(),
            views == Seq::new(entries@.len(), |i: int| entries@[i]@),
            strings(shown@) == listed(views.take(i as int)),
        decreases entries@.len() - i,
    {
        let entry = &entries[i];
        proof {
            let next = views.take(i + 1);
            assert(next.drop_last() =~= views.take(i as int));
            assert(next.last() == entry@);
        }
        let name = chars_of(entry.name.as_str());
        if !(name.len() > 0 && name[0] == '.') {
            let line = entry_line(entry);
            let ghost before = strings(shown@);
            shown.push(line);
            assert(strings(shown@) =~= before.push(listed_line(entry@)));
        }
        i += 1;
    }
    assert(views.take(entries@.len() as int) =~= views);
    sort_strings(&mut shown);
    let mut out: Vec<char> = Vec::new();
    let mut k: usize = 0;
    let ghost listing = strings(shown@);
    assert(listing.take(0) =~= Seq::<Seq<char>>::empty());
    while k < shown.len()
        invariant
            k <= shown@.len(),
            listing == strings(shown@),
            out@ == joined(listing.take(k as int)),
        decreases shown@.len() - k,
    {
        if k > 0 {
            out.push('\n');
        }
        push_str(&mut out, shown[k].as_str());
        proof {
            let next = listing.take(k + 1);
            assert(next.drop_last() =~= listing.take(k as int));
            assert(next.last() == shown@[k as int]@);
            assert(out@ =~= joined(next));
        }
        k += 1;
    }
    assert(listing.take(shown@.len() as int) =~= listing);
    string_of(out.as_slice())
}

} // verus!
