//! Text laid out in lines, and lines shown with their numbers.

use crate::decimal::{digits_of, push_digits};
use crate::text::{chars_of, push_range, string_of};
use vstd::prelude::*;

verus! {

/// The index of the first line feed in `s`, or the length of `s` where it holds none.
pub open spec fn line_end(s: Seq<char>) -> int
    decreases s.len(),
{
    if s.len() == 0 || s[0] == '\n' {
        0
    } else {
        1 + line_end(s.skip(1))
    }
}

/// `line` without the carriage return at its end, if it has one.
pub open spec fn without_cr(line: Seq<char>) -> Seq<char> {
    if line.len() > 0 && line.last() == '\r' {
        line.drop_last()
    } else {
        line
    }
}

/// The lines of `s`, as `str::lines` gives them: a line ends at a line feed,
/// or at the end of `s`; the line feed and a carriage return before it are
/// not part of the line; no line follows the last line feed where nothing
/// stands behind it.
pub open spec fn lines_of(s: Seq<char>) -> Seq<Seq<char>>
    decreases s.len(),
{
    let end = line_end(s);
    if s.len() == 0 {
        Seq::empty()
    } else if 0 <= end < s.len() {
        seq![without_cr(s.take(end))] + lines_of(s.skip(end + 1))
    } else {
        seq![s]
    }
}

/// `line_end` finds the first line feed.
pub proof fn lemma_line_end(s: Seq<char>, end: int)
    requires
        0 <= end <= s.len(),
        forall|j: int| 0 <= j < end ==> s[j] != '\n',
        end < s.len() ==> s[end] == '\n',
    ensures
        line_end(s) == end,
    decreases end,
{
    if end > 0 {
        let rest = s.skip(1);
        assert forall|j: int| 0 <= j < end - 1 implies rest[j] != '\n' by {
            assert(rest[j] == s[j + 1]);
        }
        lemma_line_end(rest, end - 1);
    }
}

/// The values of a run of lines.
pub open spec fn texts(lines: Seq<Vec<char>>) -> Seq<Seq<char>> {
    Seq::new(lines.len(), |i: int| lines[i]@)
}

/// The lines of `s`.
pub fn split_lines(s: &[char]) -> (lines: Vec<Vec<char>>)
    ensures
        texts(lines@) == lines_of(s@),
{
    let mut lines: Vec<Vec<char>> = Vec::new();
    let len: usize = s.len();
    let mut start: usize = 0;
    let mut i: usize = 0;
    assert(s@.skip(0) =~= s@);
    assert(texts(lines@) =~= Seq::<Seq<char>>::empty());
    while i < len
        invariant
            len == s@.len(),
            start <= i <= len,
            forall|j: int| start <= j < i ==> s@[j] != '\n',
            lines_of(s@) == texts(lines@) + lines_of(s@.skip(start as int)),
        decreases len - i,
    {
        if s[i] == '\n' {
            let end: usize = if i > start && s[i - 1] == '\r' {
                i - 1
            } else {
                i
            };
            let mut line: Vec<char> = Vec::new();
            push_range(&mut line, s, start, end);
            proof {
                let rest = s@.skip(start as int);
                assert forall|j: int| 0 <= j < i - start implies rest[j] != '\n' by {
                    assert(rest[j] == s@[start + j]);
                }
                lemma_line_end(rest, i - start);
                assert(rest.skip(i - start + 1) =~= s@.skip(i + 1));
                let whole = rest.take(i - start);
                assert(whole =~= s@.subrange(start as int, i as int));
                if i > start {
                    assert(whole.last() == s@[i - 1]);
                }
                assert(line@ =~= without_cr(whole));
                let ghost_before = texts(lines@);
                assert(ghost_before + (seq![line@] + lines_of(s@.skip(i + 1))) =~= ghost_before.push(
                    line@,
                ) + lines_of(s@.skip(i + 1)));
            }
            let ghost shown = texts(lines@);
            lines.push(line);
            assert(texts(lines@) =~= shown.push(line@));
            start = i + 1;
        }
        i += 1;
    }
    if start < len {
        let mut line: Vec<char> = Vec::new();
        push_range(&mut line, s, start, len);
        proof {
            let rest = s@.skip(start as int);
            assert forall|j: int| 0 <= j < rest.len() implies rest[j] != '\n' by {
                assert(rest[j] == s@[start + j]);
            }
            lemma_line_end(rest, rest.len() as int);
            assert(line@ =~= rest);
        }
        let ghost shown = texts(lines@);
        lines.push(line);
        assert(texts(lines@) =~= shown.push(line@));
    } else {
        assert(s@.skip(start as int) =~= Seq::<char>::empty());
    }
    lines
}

/// `s`, with spaces before it where it has fewer than `width` characters.
pub open spec fn padded(s: Seq<char>, width: nat) -> Seq<char> {
    if s.len() >= width {
        s
    } else {
        Seq::new((width - s.len()) as nat, |i: int| ' ') + s
    }
}

/// A line as it is shown with its number: the number, right-aligned in six
/// columns, a tab, and the line.
pub open spec fn numbered_line(number: nat, line: Seq<char>) -> Seq<char> {
    padded(digits_of(number), 6) + seq!['\t'] + line
}

/// The lines of `lines`, each shown with its number, the first one with `start`.
pub open spec fn numbered_lines(lines: Seq<Seq<char>>, start: nat) -> Seq<Seq<char>> {
    Seq::new(lines.len(), |i: int| numbered_line(start + i as nat, lines[i]))
}

/// The lines of `lines`, with a line feed between each two.
pub open spec fn joined(lines: Seq<Seq<char>>) -> Seq<char>
    decreases lines.len(),
{
    if lines.len() == 0 {
        Seq::empty()
    } else if lines.len() == 1 {
        lines[0]
    } else {
        joined(lines.drop_last()) + seq!['\n'] + lines.last()
    }
}

/// The text `content` with a number before each line, counting from `start`.
pub open spec fn numbered_output(content: Seq<char>, start: nat) -> Seq<char> {
    joined(numbered_lines(lines_of(content), start))
}

/// Appends `line`, shown with `number`, to `out`.
pub fn push_numbered_line(out: &mut Vec<char>, number: u128, line: &[char])
    ensures
        final(out)@ == old(out)@ + numbered_line(number as nat, line@),
{
    let mut digits: Vec<char> = Vec::new();
    push_digits(number, &mut digits);
    assert(digits@ =~= digits_of(number as nat));
    let ghost before = out@;
    let mut pad: usize = digits.len();
    while pad < 6
        invariant
            digits@.len() <= pad,
            pad >= 6 ==> pad == digits@.len() || pad == 6,
            out@ == before + Seq::new((pad - digits@.len()) as nat, |i: int| ' '),
        decreases 6 - pad,
    {
        out.push(' ');
        pad += 1;
        assert(out@ =~= before + Seq::new((pad - digits@.len()) as nat, |i: int| ' '));
    }
    push_range(out, digits.as_slice(), 0, digits.len());
    out.push('\t');
    push_range(out, line, 0, line.len());
    proof {
        assert(digits@.subrange(0, digits@.len() as int) =~= digits@);
        assert(line@.subrange(0, line@.len() as int) =~= line@);
        assert(out@ =~= before + numbered_line(number as nat, line@));
    }
}

/// Appends `lines[from..to]`, each shown with its number and with a line
/// feed between each two, to `out`; the line at index `i` has the number
/// `first + (i - from)`.
pub fn push_numbered(out: &mut Vec<char>, lines: &Vec<Vec<char>>, from: usize, to: usize, first: u128)
    requires
        from <= to <= lines@.len(),
        first + (to - from) <= u128::MAX,
    ensures
        final(out)@ == old(out)@ + joined(
            numbered_lines(texts(lines@).subrange(from as int, to as int), first as nat),
        ),
{
    let ghost before = out@;
    let ghost shown = numbered_lines(
        texts(lines@).subrange(from as int, to as int),
        first as nat,
    );
    let mut i: usize = from;
    assert(shown.take(0) =~= Seq::<Seq<char>>::empty());
    assert(before + joined(shown.take(0)) =~= before);
    while i < to
        invariant
            from <= i <= to <= lines@.len(),
            first + (to - from) <= u128::MAX,
            shown == numbered_lines(
                texts(lines@).subrange(from as int, to as int),
                first as nat,
            ),
            out@ == before + joined(shown.take(i - from)),
        decreases to - i,
    {
        if i > from {
            out.push('\n');
        }
        let number: u128 = first + (i - from) as u128;
        push_numbered_line(out, number, lines[i].as_slice());
        proof {
            let next = shown.take(i + 1 - from);
            assert(next.drop_last() =~= shown.take(i - from));
            assert(next.last() == shown[i - from]);
            assert(texts(lines@).subrange(from as int, to as int)[i - from] == lines@[i as int]@);
            assert(out@ =~= before + joined(next));
        }
        i += 1;
    }
    assert(shown.take(to - from) =~= shown);
}

/// Shows the lines of `content` with their numbers, the first with `first`.
pub fn number_lines(content: &[char], first: u128) -> (output: String)
    requires
        first <= u64::MAX + 1,
    ensures
        output@ == numbered_output(content@, first as nat),
{
    let lines = split_lines(content);
    let mut out: Vec<char> = Vec::new();
    push_numbered(&mut out, &lines, 0, lines.len(), first);
    proof {
        assert(texts(lines@).subrange(0, lines@.len() as int) =~= texts(lines@));
    }
    string_of(out.as_slice())
}

/// Shows `content` with a number before each line: the number,
/// right-aligned in six columns, then a tab, then the line; the first line
/// has the number `start_line`, and the lines are joined by line feeds.
pub fn make_numbered_output(content: &str, start_line: usize) -> (output: String)
    ensures
        output@ == numbered_output(content@, start_line as nat),
{
    let chars = chars_of(content);
    let lines = split_lines(chars.as_slice());
    let mut out: Vec<char> = Vec::new();
    push_numbered(&mut out, &lines, 0, lines.len(), start_line as u128);
    proof {
        assert(texts(lines@).subrange(0, lines@.len() as int) =~= texts(lines@));
        assert(out@ =~= numbered_output(content@, start_line as nat));
    }
    string_of(out.as_slice())
}

} // verus!
