//! The parts of the tree tool that compute: which entries of a directory
//! the tree shows, and the lines that show them.

use crate::decimal::{digits_of, push_digits};
use crate::models::text_of;
use crate::text::{
    chars_of, is_whitespace, matches_at, push_str, string_of, string_of_range, trim_end,
    whitespace,
};
use crate::tools::file_tools::{is_hidden, ordered, sort_strings, strings};
use vstd::prelude::*;
use vstd::string::StrSliceExecFns;

verus! {

/// How many entries of a directory the tree shows where none is asked for.
pub const DEFAULT_TRUNCATE: usize = 10;

/// The entry is part of the tree: it is not hidden, and its name is none of
/// the excluded ones.
pub open spec fn is_shown(name: Seq<char>, exclude: Seq<Seq<char>>) -> bool {
    !is_hidden(name) && !exclude.contains(name)
}

/// Whether the entry is part of the tree.
pub fn shown_in_tree(name: &str, exclude: &Vec<String>) -> (b: bool)
    ensures
        b == is_shown(name@, strings(exclude@)),
{
    let ghost names = strings(exclude@);
    let chars = chars_of(name);
    if chars.len() > 0 && chars[0] == '.' {
        return false;
    }
    let mut i: usize = 0;
    while i < exclude.len()
        invariant
            i <= exclude@.len(),
            chars@ == name@,
            names == strings(exclude@),
            forall|j: int| 0 <= j < i ==> names[j] != name@,
        decreases exclude@.len() - i,
    {
        let other = chars_of(exclude[i].as_str());
        if other.len() == chars.len() && matches_at(
            other.as_slice(),
            chars.as_slice(),
            0,
        ) {
            assert(other@.subrange(0, chars@.len() as int) =~= other@);
            assert(names[i as int] == name@);
            return false;
        }
        proof {
            if names[i as int] == name@ {
                assert(other@.subrange(0, chars@.len() as int) =~= chars@);
            }
        }
        i += 1;
    }
    true
}

/// `s` without its leading whitespace.
pub open spec fn trim_start(s: Seq<char>) -> Seq<char>
    decreases s.len(),
{
    if s.len() > 0 && is_whitespace(s[0]) {
        trim_start(s.skip(1))
    } else {
        s
    }
}

/// The index of the first comma in `s`, or the length of `s` where it holds none.
pub open spec fn comma_end(s: Seq<char>) -> int
    decreases s.len(),
{
    if s.len() == 0 || s[0] == ',' {
        0
    } else {
        1 + comma_end(s.skip(1))
    }
}

/// The names that `s` excludes: the pieces of `s` between its commas,
/// without the whitespace around them, as far as they are not empty.
pub open spec fn excluded_names(s: Seq<char>) -> Seq<Seq<char>>
    decreases s.len(),
{
    let end = comma_end(s);
    let first = trim_start(trim_end(s.take(end)));
    let rest = if 0 <= end < s.len() {
        excluded_names(s.skip(end + 1))
    } else {
        Seq::empty()
    };
    if first.len() > 0 {
        seq![first] + rest
    } else {
        rest
    }
}

/// `comma_end` finds the first comma.
proof fn lemma_comma_end(s: Seq<char>, end: int)
    requires
        0 <= end <= s.len(),
        forall|j: int| 0 <= j < end ==> s[j] != ',',
        end < s.len() ==> s[end] == ',',
    ensures
        comma_end(s) == end,
    decreases end,
{
    if end > 0 {
        let rest = s.skip(1);
        assert forall|j: int| 0 <= j < end - 1 implies rest[j] != ',' by {
            assert(rest[j] == s[j + 1]);
        }
        lemma_comma_end(rest, end - 1);
    }
}

/// The piece `v[from..to]` without the whitespace around it.
fn trimmed_piece(v: &[char], from: usize, to: usize) -> (piece: String)
    requires
        from <= to <= v@.len(),
    ensures
        piece@ == trim_start(trim_end(v@.subrange(from as int, to as int))),
{
    let ghost whole = v@.subrange(from as int, to as int);
    let mut end: usize = to;
    while end > from && whitespace(v[end - 1])
        invariant
            from <= end <= to <= v@.len(),
            trim_end(v@.subrange(from as int, end as int)) == trim_end(whole),
        decreases end,
    {
        proof {
            let s = v@.subrange(from as int, end as int);
            assert(s.last() == v@[end - 1]);
            assert(s.drop_last() =~= v@.subrange(from as int, end - 1));
        }
        end -= 1;
    }
    proof {
        let s = v@.subrange(from as int, end as int);
        if end > from {
            assert(s.last() == v@[end - 1]);
        }
        assert(trim_end(whole) == s);
    }
    let mut start: usize = from;
    while start < end && whitespace(v[start])
        invariant
            from <= start <= end <= v@.len(),
            trim_start(v@.subrange(start as int, end as int)) == trim_start(trim_end(whole)),
        decreases end - start,
    {
        proof {
            let s = v@.subrange(start as int, end as int);
            assert(s[0] == v@[start as int]);
            assert(s.skip(1) =~= v@.subrange(start + 1, end as int));
        }
        start += 1;
    }
    proof {
        let s = v@.subrange(start as int, end as int);
        if start < end {
            assert(s[0] == v@[start as int]);
        }
    }
    string_of_range(v, start, end)
}

/// The names that `exclude` excludes from the tree.
pub fn parse_exclude(exclude: &str) -> (names: Vec<String>)
    ensures
        strings(names@) == excluded_names(exclude@),
{
    let s = chars_of(exclude);
    let len: usize = s.len();
    let mut names: Vec<String> = Vec::new();
    let mut start: usize = 0;
    let mut i: usize = 0;
    assert(s@.skip(0) =~= s@);
    assert(strings(names@) =~= Seq::<Seq<char>>::empty());
    while i < len
        invariant
            len == s@.len(),
            s@ == exclude@,
            start <= i <= len,
            forall|j: int| start <= j < i ==> s@[j] != ',',
            excluded_names(s@) == strings(names@) + excluded_names(
                s@.skip(start as int),
            ),
        decreases len - i,
    {
        if s[i] == ',' {
            let piece = trimmed_piece(s.as_slice(), start, i);
            let ghost shown = strings(names@);
            proof {
                let rest = s@.skip(start as int);
                assert forall|j: int| 0 <= j < i - start implies rest[j] != ',' by {
                    assert(rest[j] == s@[start + j]);
                }
                lemma_comma_end(rest, i - start);
                assert(rest.skip(i - start + 1) =~= s@.skip(i + 1));
                assert(rest.take(i - start) =~= s@.subrange(start as int, i as int));
                let behind = excluded_names(s@.skip(i + 1));
                assert(shown + (seq![piece@] + behind) =~= shown.push(piece@) + behind);
            }
            if piece.as_str().unicode_len() > 0 {
                names.push(piece);
                assert(strings(names@) =~= shown.push(piece@));
            }
            start = i + 1;
        }
        i += 1;
    }
    let piece = trimmed_piece(s.as_slice(), start, len);
    let ghost shown = strings(names@);
    proof {
        let rest = s@.skip(start as int);
        assert forall|j: int| 0 <= j < rest.len() implies rest[j] != ',' by {
            assert(rest[j] == s@[start + j]);
        }
        lemma_comma_end(rest, rest.len() as int);
        assert(rest.take(rest.len() as int) =~= s@.subrange(start as int, len as int));
        assert(shown + Seq::<Seq<char>>::empty() =~= shown);
        assert(shown + seq![piece@] =~= shown.push(piece@));
    }
    if piece.as_str().unicode_len() > 0 {
        names.push(piece);
        assert(strings(names@) =~= shown.push(piece@));
    }
    names
}

/// How many of `total` entries the tree shows, and how many it leaves out,
/// where it shows at most `truncate`.
pub fn shown_count(total: usize, truncate: usize) -> (r: (usize, usize))
    ensures
        r.0 == if total > truncate {
            truncate
        } else {
            total
        },
        r.0 + r.1 == total,
{
    if total > truncate {
        (truncate, total - truncate)
    } else {
        (total, 0)
    }
}

/// What the tree shows of one entry of a directory.
#[derive(Debug, PartialEq, Eq)]
pub struct TreeRow {
    /// The entry's name.
    pub name: String,
    /// The line that shows the entry.
    pub line: String,
    /// What stands before each line below the entry, where it is a directory.
    pub child_prefix: String,
    /// The line that tells how many entries are left out, behind the last
    /// entry that is shown.
    pub more: Option<String>,
}

/// A `TreeRow` as a mathematical value.
pub struct TreeRowView {
    pub name: Seq<char>,
    pub line: Seq<char>,
    pub child_prefix: Seq<char>,
    pub more: Option<Seq<char>>,
}

impl View for TreeRow {
    type V = TreeRowView;

    open spec fn view(&self) -> TreeRowView {
        TreeRowView {
            name: self.name@,
            line: self.line@,
            child_prefix: self.child_prefix@,
            more: text_of(self.more),
        }
    }
}

/// The row for entry number `i` of `names`, of which the first `shown` are
/// shown. The last line of a directory hangs on a corner, the others on a
/// branch; where entries are left out, the last line is the one that tells
/// how many.
pub open spec fn tree_row(prefix: Seq<char>, names: Seq<Seq<char>>, shown: int, i: int) -> TreeRowView {
    let closes = i == shown - 1 && shown == names.len();
    TreeRowView {
        name: names[i],
        line: prefix + (if closes {
            "└── "@
        } else {
            "├── "@
        }) + names[i] + "\n"@,
        child_prefix: prefix + (if closes {
            "    "@
        } else {
            "│   "@
        }),
        more: if i == shown - 1 && shown < names.len() {
            Some(
                prefix + "└── ... ("@ + digits_of((names.len() - shown) as nat) + " more)\n"@,
            )
        } else {
            None
        },
    }
}

/// The rows for the entries of one directory, in the order of `names`: one
/// for each of the first `truncate` names.
pub open spec fn tree_rows(prefix: Seq<char>, names: Seq<Seq<char>>, truncate: nat) -> Seq<TreeRowView> {
    let shown = if names.len() > truncate {
        truncate as int
    } else {
        names.len() as int
    };
    Seq::new(shown as nat, |i: int| tree_row(prefix, names, shown, i))
}

/// The rows that show the entries of one directory.
pub fn tree_level(prefix: &str, names: &Vec<String>, truncate: usize) -> (rows: Vec<TreeRow>)
    ensures
        Seq::new(rows@.len(), |i: int| rows@[i]@) == tree_rows(
            prefix@,
            strings(names@),
            truncate as nat,
        ),
{
    let ghost all = strings(names@);
    let (shown, remaining) = shown_count(names.len(), truncate);
    let mut rows: Vec<TreeRow> = Vec::new();
    let mut i: usize = 0;
    while i < shown
        invariant
            i <= shown <= names@.len(),
            shown + remaining == names@.len(),
            all == strings(names@),
            rows@.len() == i,
            forall|j: int| 0 <= j < i ==> (#[trigger] rows@[j])@ == tree_row(prefix@, all, shown as int, j),
        decreases shown - i,
    {
        let last: bool = i == shown - 1;
        let closes: bool = last && remaining == 0;
        let mut line: Vec<char> = Vec::new();
        push_str(&mut line, prefix);
        push_str(&mut line, if closes {
            "└── "
        } else {
            "├── "
        });
        push_str(&mut line, names[i].as_str());
        push_str(&mut line, "\n");
        let mut child: Vec<char> = Vec::new();
        push_str(&mut child, prefix);
        push_str(&mut child, if closes {
            "    "
        } else {
            "│   "
        });
        let more: Option<String> = if last && remaining > 0 {
            let mut text: Vec<char> = Vec::new();
            push_str(&mut text, prefix);
            push_str(&mut text, "└── ... (");
            push_digits(remaining as u128, &mut text);
            push_str(&mut text, " more)\n");
            Some(string_of(text.as_slice()))
        } else {
            None
        };
        let row = TreeRow {
            name: names[i].clone(),
            line: string_of(line.as_slice()),
            child_prefix: string_of(child.as_slice()),
            more,
        };
        assert(row@ == tree_row(prefix@, all, shown as int, i as int));
        rows.push(row);
        i += 1;
    }
    assert(Seq::new(rows@.len(), |i: int| rows@[i]@) =~= tree_rows(prefix@, all, truncate as nat));
    rows
}

/// The names of `names` that are part of the tree, in the order of `names`.
pub open spec fn shown_names(names: Seq<Seq<char>>, exclude: Seq<Seq<char>>) -> Seq<Seq<char>>
    decreases names.len(),
{
    if names.len() == 0 {
        Seq::empty()
    } else if is_shown(names.last(), exclude) {
        shown_names(names.drop_last(), exclude).push(names.last())
    } else {
        shown_names(names.drop_last(), exclude)
    }
}

/// Whether the tree goes on below depth `current_depth`: it shows nothing
/// at or below the depth `max_depth`.
pub fn within_depth(current_depth: usize, max_depth: usize) -> (b: bool)
    ensures
        b == (current_depth < max_depth),
{
    current_depth < max_depth
}

/// The rows that the tree shows for a directory at depth `current_depth`
/// whose entries have the names `names`, in whatever order they were read:
/// none at or below the depth `max_depth`; otherwise one row for each of
/// the first `truncate` names that are part of the tree, in the order of
/// strings.
pub fn tree_directory(
    prefix: &str,
    names: &Vec<String>,
    exclude: &Vec<String>,
    truncate: usize,
    current_depth: usize,
    max_depth: usize,
) -> (rows: Vec<TreeRow>)
    ensures
        current_depth >= max_depth ==> rows@.len() == 0,
        current_depth < max_depth ==> exists|listing: Seq<Seq<char>>|
            {
                &&& ordered(listing)
                &&& listing.to_multiset() == shown_names(strings(names@), strings(exclude@)).to_multiset()
                &&& Seq::new(rows@.len(), |i: int| rows@[i]@) == tree_rows(
                    prefix@,
                    listing,
                    truncate as nat,
                )
            },
{
    if !within_depth(current_depth, max_depth) {
        return Vec::new();
    }
    let ghost all = strings(names@);
    let mut kept: Vec<String> = Vec::new();
    let mut i: usize = 0;
    assert(all.take(0) =~= Seq::<Seq<char>>::empty());
    assert(strings(kept@) =~= Seq::<Seq<char>>::empty());
    while i < names.len()
        invariant
            i <= names@.len(),
            all == strings(names@),
            strings(kept@) == shown_names(all.take(i as int), strings(exclude@)),
        decreases names@.len() - i,
    {
        proof {
            let next = all.take(i + 1);
            assert(next.drop_last() =~= all.take(i as int));
            assert(next.last() == names@[i as int]@);
        }
        if shown_in_tree(names[i].as_str(), exclude) {
            let ghost before = strings(kept@);
            kept.push(names[i].clone());
            assert(strings(kept@) =~= before.push(names@[i as int]@));
        }
        i += 1;
    }
    assert(all.take(names@.len() as int) =~= all);
    sort_strings(&mut kept);
    tree_level(prefix, &kept, truncate)
}

} // verus!
