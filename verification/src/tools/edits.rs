//! The parts of the editing tools that compute: where a string stands in a
//! file, what the file holds after an edit, and what the tool says of it.

use crate::decimal::{digits_of, push_digits};
use crate::text::{
    chars_of, find_from, first_index_from, occurs_from, push_range, push_str, string_of,
};
use crate::tools::file_tools::push_joined;
use crate::text::matches_at;
use crate::tools::utils::{joined, lines_of, number_lines, numbered_output, split_lines, texts};
use vstd::prelude::*;

verus! {

/// Where `needle` stands in `hay` at or after `from`, from left to right and
/// without overlap, as `str::match_indices` finds it: behind an occurrence
/// the search goes on at its end. An empty needle stands at every index.
pub open spec fn occurrences(hay: Seq<char>, needle: Seq<char>, from: int) -> Seq<int>
    decreases hay.len() - from,
{
    let i = first_index_from(hay, needle, from);
    if from < 0 || from > hay.len() {
        Seq::empty()
    } else if needle.len() == 0 {
        Seq::new((hay.len() - from + 1) as nat, |k: int| from + k)
    } else if occurs_from(hay, needle, from) && from <= i && i + needle.len() <= hay.len() {
        seq![i] + occurrences(hay, needle, i + needle.len())
    } else {
        Seq::empty()
    }
}

/// How many line feeds `s` holds.
pub open spec fn count_newlines(s: Seq<char>) -> nat
    decreases s.len(),
{
    if s.len() == 0 {
        0
    } else if s.last() == '\n' {
        count_newlines(s.drop_last()) + 1
    } else {
        count_newlines(s.drop_last())
    }
}

/// The number of the line that holds index `at` of `content`, counted from 1.
pub open spec fn line_number(content: Seq<char>, at: int) -> nat {
    count_newlines(content.take(at)) + 1
}

/// The line feeds in `s[..end]`.
pub fn newlines_before(s: &[char], end: usize) -> (n: usize)
    requires
        end <= s@.len(),
    ensures
        n == count_newlines(s@.take(end as int)),
        n <= end,
{
    let mut n: usize = 0;
    let mut i: usize = 0;
    assert(s@.take(0) =~= Seq::<char>::empty());
    while i < end
        invariant
            i <= end <= s@.len(),
            n <= i,
            n == count_newlines(s@.take(i as int)),
        decreases end - i,
    {
        proof {
            let next = s@.take(i + 1);
            assert(next.drop_last() =~= s@.take(i as int));
            assert(next.last() == s@[i as int]);
        }
        if s[i] == '\n' {
            n += 1;
        }
        i += 1;
    }
    n
}

/// Where `needle` stands in `hay`, from left to right and without overlap.
pub fn find_all(hay: &[char], needle: &[char]) -> (found: Vec<usize>)
    ensures
        found@.len() == occurrences(hay@, needle@, 0).len(),
        forall|k: int|
            0 <= k < found@.len() ==> (#[trigger] found@[k]) as int == occurrences(
                hay@,
                needle@,
                0,
            )[k],
        forall|k: int| 0 <= k < found@.len() ==> (#[trigger] found@[k]) + needle@.len() <= hay@.len(),
{
    let ghost all = occurrences(hay@, needle@, 0);
    let mut found: Vec<usize> = Vec::new();
    let len: usize = hay.len();
    let n: usize = needle.len();
    if n == 0 {
        let mut i: usize = 0;
        loop
            invariant
                len == hay@.len(),
                needle@.len() == 0,
                i <= len,
                all == occurrences(hay@, needle@, 0),
                found@.len() == i,
                forall|k: int| 0 <= k < found@.len() ==> (#[trigger] found@[k]) as int == all[k],
                forall|k: int| 0 <= k < found@.len() ==> (#[trigger] found@[k]) <= len,
            decreases len - i,
        {
            found.push(i);
            if i == len {
                return found;
            }
            i += 1;
        }
    }
    let mut from: usize = 0;
    let ghost mut done: Seq<int> = Seq::empty();
    loop
        invariant
            len == hay@.len(),
            n == needle@.len(),
            n > 0,
            from <= len,
            all == occurrences(hay@, needle@, 0),
            all == done + occurrences(hay@, needle@, from as int),
            found@.len() == done.len(),
            forall|k: int| 0 <= k < found@.len() ==> (#[trigger] found@[k]) as int == done[k],
            forall|k: int| 0 <= k < found@.len() ==> (#[trigger] found@[k]) + n <= len,
        decreases len - from,
    {
        match find_from(hay, needle, from) {
            Some(i) => {
                proof {
                    let rest = occurrences(hay@, needle@, i + n);
                    assert(occurrences(hay@, needle@, from as int) == seq![i as int] + rest);
                    assert(done + (seq![i as int] + rest) =~= done.push(i as int) + rest);
                    done = done.push(i as int);
                }
                found.push(i);
                from = i + n;
            },
            None => {
                proof {
                    assert(occurrences(hay@, needle@, from as int) =~= Seq::<int>::empty());
                    assert(done + Seq::<int>::empty() =~= done);
                }
                return found;
            },
        }
    }
}

/// What an editing tool makes of a file.
#[derive(Debug, PartialEq, Eq)]
pub enum EditOutcome {
    /// The edit is refused; the file stays as it is. The text says why.
    Refused(String),
    /// The file is to hold `new_content`; `message` shows the lines around the edit.
    Edited { new_content: String, message: String },
}

/// An `EditOutcome` as a mathematical value.
pub enum EditOutcomeView {
    Refused(Seq<char>),
    Edited { new_content: Seq<char>, message: Seq<char> },
}

impl View for EditOutcome {
    type V = EditOutcomeView;

    open spec fn view(&self) -> EditOutcomeView {
        match self {
            EditOutcome::Refused(why) => EditOutcomeView::Refused(why@),
            EditOutcome::Edited { new_content, message } => EditOutcomeView::Edited {
                new_content: new_content@,
                message: message@,
            },
        }
    }
}

/// The numbers of the lines that hold the indices `found`, with a comma and
/// a space between each two.
pub open spec fn line_numbers(content: Seq<char>, found: Seq<int>) -> Seq<char>
    decreases found.len(),
{
    if found.len() == 0 {
        Seq::empty()
    } else if found.len() == 1 {
        digits_of(line_number(content, found[0]))
    } else {
        line_numbers(content, found.drop_last()) + ", "@ + digits_of(
            line_number(content, found.last()),
        )
    }
}

/// The lines number `start + 1` to number `end` of `content`, as far as it
/// has them, shown with their numbers.
pub open spec fn snippet(content: Seq<char>, start: nat, end: nat) -> Seq<char> {
    let lines = lines_of(content);
    let from = if start < lines.len() {
        start
    } else {
        lines.len()
    };
    let to = if end < from {
        from
    } else if end < lines.len() {
        end
    } else {
        lines.len()
    };
    numbered_output(joined(lines.subrange(from as int, to as int)), start + 1)
}

/// What a tool says of an edit that it made.
pub open spec fn edited_message(path: Seq<char>, shown: Seq<char>) -> Seq<char> {
    "The file "@ + path + " has been edited. "@ + shown
        + "Review the changes and make sure they are as expected."@
}

/// What replacing `old` by `new` makes of `content`. The two must differ,
/// and `old` must stand in `content` exactly once. Then `new` takes its
/// place, and the message shows four lines before and behind the edit.
pub open spec fn str_replaced(
    path: Seq<char>,
    content: Seq<char>,
    old: Seq<char>,
    new: Seq<char>,
) -> EditOutcomeView {
    let found = occurrences(content, old, 0);
    if old == new {
        EditOutcomeView::Refused(
            "Error: No replacement was performed. new_str and old_str must be different."@,
        )
    } else if found.len() == 0 {
        EditOutcomeView::Refused(
            "Error: No replacement was performed, old_str `"@ + old
                + "` did not appear verbatim in "@ + path + "."@,
        )
    } else if found.len() > 1 {
        EditOutcomeView::Refused(
            "Error: No replacement was performed. Multiple occurrences of old_str `"@ + old
                + "` in lines ["@ + line_numbers(content, found)
                + "]. Please provide more context to make the match unique."@,
        )
    } else {
        let at = found[0];
        let new_content = content.take(at) + new + content.skip(at + old.len());
        let line = line_number(content, at);
        let start = if line >= 4 {
            (line - 4) as nat
        } else {
            0
        };
        EditOutcomeView::Edited {
            new_content,
            message: edited_message(
                path,
                snippet(new_content, start, line + 4 + count_newlines(new)),
            ),
        }
    }
}

/// Shows the lines number `start + 1` to number `end` of `content`, as far
/// as it has them, with their numbers.
pub fn make_snippet(content: &[char], start: u128, end: u128) -> (shown: String)
    requires
        start <= u64::MAX,
    ensures
        shown@ == snippet(content@, start as nat, end as nat),
{
    let lines = split_lines(content);
    let n: usize = lines.len();
    let from: usize = if start < n as u128 {
        start as usize
    } else {
        n
    };
    let to: usize = if end < from as u128 {
        from
    } else if end < n as u128 {
        end as usize
    } else {
        n
    };
    let mut chosen: Vec<char> = Vec::new();
    push_joined(&mut chosen, &lines, from, to);
    number_lines(chosen.as_slice(), start + 1)
}

/// Appends what a tool says of an edit that it made to `out`.
fn push_edited_message(out: &mut Vec<char>, path: &str, shown: &str)
    ensures
        final(out)@ == old(out)@ + edited_message(path@, shown@),
{
    let ghost before = out@;
    push_str(out, "The file ");
    push_str(out, path);
    push_str(out, " has been edited. ");
    push_str(out, shown);
    push_str(out, "Review the changes and make sure they are as expected.");
    assert(out@ =~= before + edited_message(path@, shown@));
}

/// Replaces `old_str` by `new_str` in `content`, the text of the file at
/// `path`, where the two differ and `old_str` stands in `content` exactly
/// once; says why not otherwise.
pub fn str_replace(path: &str, content: &str, old_str: &str, new_str: &str) -> (outcome: EditOutcome)
    ensures
        outcome@ == str_replaced(path@, content@, old_str@, new_str@),
{
    let text = chars_of(content);
    let old_chars = chars_of(old_str);
    let new_chars = chars_of(new_str);
    let mut out: Vec<char> = Vec::new();
    if old_chars.len() == new_chars.len() && matches_at(
        old_chars.as_slice(),
        new_chars.as_slice(),
        0,
    ) {
        assert(old_chars@.subrange(0, new_chars@.len() as int) =~= old_chars@);
        return EditOutcome::Refused(
            "Error: No replacement was performed. new_str and old_str must be different.".to_owned(),
        );
    }
    assert(old_str@ != new_str@) by {
        if old_str@ == new_str@ {
            assert(old_chars@.subrange(0, new_chars@.len() as int) =~= new_chars@);
        }
    }
    let found = find_all(text.as_slice(), old_chars.as_slice());
    let ghost all = occurrences(content@, old_str@, 0);
    if found.len() == 0 {
        push_str(&mut out, "Error: No replacement was performed, old_str `");
        push_str(&mut out, old_str);
        push_str(&mut out, "` did not appear verbatim in ");
        push_str(&mut out, path);
        push_str(&mut out, ".");
        return EditOutcome::Refused(string_of(out.as_slice()));
    }
    if found.len() > 1 {
        push_str(&mut out, "Error: No replacement was performed. Multiple occurrences of old_str `");
        push_str(&mut out, old_str);
        push_str(&mut out, "` in lines [");
        let ghost before = out@;
        let mut k: usize = 0;
        assert(all.take(0) =~= Seq::<int>::empty());
        assert(before + line_numbers(content@, all.take(0)) =~= before);
        while k < found.len()
            invariant
                k <= found@.len(),
                found@.len() == all.len(),
                all == occurrences(content@, old_str@, 0),
                text@ == content@,
                forall|j: int| 0 <= j < found@.len() ==> (#[trigger] found@[j]) as int == all[j],
                forall|j: int|
                    0 <= j < found@.len() ==> (#[trigger] found@[j]) + old_chars@.len()
                        <= text@.len(),
                out@ == before + line_numbers(content@, all.take(k as int)),
            decreases found@.len() - k,
        {
            if k > 0 {
                push_str(&mut out, ", ");
            }
            let line: u128 = newlines_before(text.as_slice(), found[k]) as u128 + 1;
            push_digits(line, &mut out);
            proof {
                let next = all.take(k + 1);
                assert(next.drop_last() =~= all.take(k as int));
                assert(next.last() == all[k as int]);
                assert(out@ =~= before + line_numbers(content@, next));
            }
            k += 1;
        }
        assert(all.take(found@.len() as int) =~= all);
        push_str(&mut out, "]. Please provide more context to make the match unique.");
        return EditOutcome::Refused(string_of(out.as_slice()));
    }
    let at: usize = found[0];
    assert(at as int == all[0]);
    let mut replaced: Vec<char> = Vec::new();
    push_range(&mut replaced, text.as_slice(), 0, at);
    push_range(&mut replaced, new_chars.as_slice(), 0, new_chars.len());
    push_range(&mut replaced, text.as_slice(), at + old_chars.len(), text.len());
    proof {
        assert(new_chars@.subrange(0, new_chars@.len() as int) =~= new_chars@);
        assert(replaced@ =~= content@.take(at as int) + new_str@ + content@.skip(
            at + old_str@.len(),
        ));
    }
    let line: u128 = newlines_before(text.as_slice(), at) as u128 + 1;
    let start: u128 = if line >= 4 {
        line - 4
    } else {
        0
    };
    let extra: usize = newlines_before(new_chars.as_slice(), new_chars.len());
    assert(new_chars@.take(new_chars@.len() as int) =~= new_str@);
    let end: u128 = line + 4 + extra as u128;
    let shown = make_snippet(replaced.as_slice(), start, end);
    push_edited_message(&mut out, path, shown.as_str());
    EditOutcome::Edited {
        new_content: string_of(replaced.as_slice()),
        message: string_of(out.as_slice()),
    }
}

/// What inserting `text` as line number `insert_line` makes of `content`:
/// the text becomes a line of its own before the line that had the number,
/// or the first line where the number is 0, or the last where the number is
/// one more than `content` has lines. A greater number is refused. The
/// message shows four lines before and behind the edit.
pub open spec fn lines_inserted(
    path: Seq<char>,
    content: Seq<char>,
    insert_line: u64,
    text: Seq<char>,
) -> EditOutcomeView {
    let lines = lines_of(content);
    let at = if insert_line >= 1 {
        insert_line - 1
    } else {
        0
    };
    if at > lines.len() {
        EditOutcomeView::Refused(
            "Error: insert_line "@ + digits_of(insert_line as nat)
                + " should be within the range [0, "@ + digits_of(lines.len()) + "]"@,
        )
    } else {
        let new_content = joined(lines.insert(at, text));
        let start = if insert_line >= 4 {
            (insert_line - 4) as nat
        } else {
            0
        };
        EditOutcomeView::Edited {
            new_content,
            message: edited_message(
                path,
                snippet(new_content, start, insert_line as nat + 4 + lines_of(text).len()),
            ),
        }
    }
}

/// Inserts `text` as line number `insert_line` into `content`, the text of
/// the file at `path`, or says why not.
pub fn insert_lines(path: &str, content: &str, insert_line: u64, text: &str) -> (outcome:
    EditOutcome)
    ensures
        outcome@ == lines_inserted(path@, content@, insert_line, text@),
{
    let chars = chars_of(content);
    let mut lines = split_lines(chars.as_slice());
    let n: usize = lines.len();
    let at: u64 = if insert_line >= 1 {
        insert_line - 1
    } else {
        0
    };
    let mut out: Vec<char> = Vec::new();
    if at > n as u64 {
        push_str(&mut out, "Error: insert_line ");
        push_digits(insert_line as u128, &mut out);
        push_str(&mut out, " should be within the range [0, ");
        push_digits(n as u128, &mut out);
        push_str(&mut out, "]");
        return EditOutcome::Refused(string_of(out.as_slice()));
    }
    let text_chars = chars_of(text);
    let inserted: usize = split_lines(text_chars.as_slice()).len();
    let ghost before = texts(lines@);
    lines.insert(at as usize, text_chars);
    assert(texts(lines@) =~= before.insert(at as int, text@));
    let mut changed: Vec<char> = Vec::new();
    push_joined(&mut changed, &lines, 0, lines.len());
    assert(texts(lines@).subrange(0, lines@.len() as int) =~= texts(lines@));
    let start: u128 = if insert_line >= 4 {
        (insert_line - 4) as u128
    } else {
        0
    };
    let end: u128 = insert_line as u128 + 4 + inserted as u128;
    let shown = make_snippet(changed.as_slice(), start, end);
    push_edited_message(&mut out, path, shown.as_str());
    EditOutcome::Edited {
        new_content: string_of(changed.as_slice()),
        message: string_of(out.as_slice()),
    }
}

/// What the tool says when it has put `restored` back as the text of the
/// file at `path`.
pub open spec fn undone_message(path: Seq<char>, restored: Seq<char>) -> Seq<char> {
    "Last edit to "@ + path + " undone successfully. "@ + numbered_output(restored, 1)
}

/// Says that the last edit to the file at `path` is undone, and shows the
/// text that the file holds again.
pub fn undo_message(path: &str, restored: &str) -> (message: String)
    ensures
        message@ == undone_message(path@, restored@),
{
    let mut out: Vec<char> = Vec::new();
    push_str(&mut out, "Last edit to ");
    push_str(&mut out, path);
    push_str(&mut out, " undone successfully. ");
    let text = chars_of(restored);
    let shown = number_lines(text.as_slice(), 1);
    push_str(&mut out, shown.as_str());
    string_of(out.as_slice())
}

} // verus!
