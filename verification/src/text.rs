//! Character-level text utilities: conversions between strings and character
//! vectors, substring search and trailing-whitespace trimming, each with a
//! specification over `Seq<char>`.

use vstd::prelude::*;

verus! {

/// `String::push` appends one character to the end of the string.
pub assume_specification[ String::push ](s: &mut String, c: char)
    ensures
        final(s)@ == old(s)@.push(c),
;

/// The characters of `s`, in order.
pub fn chars_of(s: &str) -> (v: Vec<char>)
    ensures
        v@ == s@,
{
    broadcast use vstd::string::group_string_axioms;

    let mut v: Vec<char> = Vec::new();
    for c in it: s.chars()
        invariant
            it.seq() == s@,
            v@ == s@.take(it.index() as int),
    {
        v.push(c);
    }
    v
}

/// The string made of the characters `v[from..to]`.
pub fn string_of_range(v: &[char], from: usize, to: usize) -> (s: String)
    requires
        from <= to <= v@.len(),
    ensures
        s@ == v@.subrange(from as int, to as int),
{
    let mut s = String::new();
    let mut i: usize = from;
    while i < to
        invariant
            from <= i <= to <= v@.len(),
            s@ == v@.subrange(from as int, i as int),
        decreases to - i,
    {
        s.push(v[i]);
        i += 1;
    }
    s
}

/// The string made of the characters of `v`.
pub fn string_of(v: &[char]) -> (s: String)
    ensures
        s@ == v@,
{
    let s = string_of_range(v, 0, v.len());
    assert(v@.subrange(0, v@.len() as int) == v@);
    s
}

/// Appends the characters `v[from..to]` to `out`.
pub fn push_range(out: &mut Vec<char>, v: &[char], from: usize, to: usize)
    requires
        from <= to <= v@.len(),
    ensures
        final(out)@ == old(out)@ + v@.subrange(from as int, to as int),
{
    let mut i: usize = from;
    assert(old(out)@ + v@.subrange(from as int, from as int) =~= old(out)@);
    while i < to
        invariant
            from <= i <= to <= v@.len(),
            out@ == old(out)@ + v@.subrange(from as int, i as int),
        decreases to - i,
    {
        out.push(v[i]);
        i += 1;
        assert(out@ =~= old(out)@ + v@.subrange(from as int, i as int));
    }
}

/// Appends the characters of `s` to `out`.
pub fn push_str(out: &mut Vec<char>, s: &str)
    ensures
        final(out)@ == old(out)@ + s@,
{
    let chars = chars_of(s);
    push_range(out, chars.as_slice(), 0, chars.len());
    assert(chars@.subrange(0, chars@.len() as int) =~= chars@);
}

/// `needle` stands in `hay` at index `i`.
pub open spec fn occurs_at(hay: Seq<char>, needle: Seq<char>, i: int) -> bool {
    &&& 0 <= i
    &&& i + needle.len() <= hay.len()
    &&& hay.subrange(i, i + needle.len()) == needle
}

/// `needle` stands somewhere in `hay`.
pub open spec fn occurs(hay: Seq<char>, needle: Seq<char>) -> bool {
    exists|i: int| occurs_at(hay, needle, i)
}

/// `i` is the leftmost index at or after `from` where `needle` stands in `hay`.
pub open spec fn is_first_from(hay: Seq<char>, needle: Seq<char>, from: int, i: int) -> bool {
    &&& from <= i
    &&& occurs_at(hay, needle, i)
    &&& forall|j: int| from <= j < i ==> !occurs_at(hay, needle, j)
}

/// `i` is the leftmost index where `needle` stands in `hay`.
pub open spec fn is_first(hay: Seq<char>, needle: Seq<char>, i: int) -> bool {
    is_first_from(hay, needle, 0, i)
}

/// `i` is the rightmost index where `needle` stands in `hay`.
pub open spec fn is_last(hay: Seq<char>, needle: Seq<char>, i: int) -> bool {
    &&& occurs_at(hay, needle, i)
    &&& forall|j: int| i < j ==> !occurs_at(hay, needle, j)
}

/// The leftmost index at or after `from` where `needle` stands in `hay`
/// (arbitrary if it stands nowhere there).
pub open spec fn first_index_from(hay: Seq<char>, needle: Seq<char>, from: int) -> int {
    choose|i: int| is_first_from(hay, needle, from, i)
}

/// The leftmost index where `needle` stands in `hay` (arbitrary if it stands nowhere).
pub open spec fn first_index(hay: Seq<char>, needle: Seq<char>) -> int {
    first_index_from(hay, needle, 0)
}

/// `needle` stands in `hay` at some index at or after `from`.
pub open spec fn occurs_from(hay: Seq<char>, needle: Seq<char>, from: int) -> bool {
    exists|i: int| from <= i && occurs_at(hay, needle, i)
}

/// The rightmost index where `needle` stands in `hay` (arbitrary if it stands nowhere).
pub open spec fn last_index(hay: Seq<char>, needle: Seq<char>) -> int {
    choose|i: int| is_last(hay, needle, i)
}

/// A leftmost occurrence at or after `from` is the value of `first_index_from`.
pub proof fn lemma_first_index_from(hay: Seq<char>, needle: Seq<char>, from: int, i: int)
    requires
        is_first_from(hay, needle, from, i),
    ensures
        first_index_from(hay, needle, from) == i,
        occurs_from(hay, needle, from),
{
    let k = first_index_from(hay, needle, from);
    assert(is_first_from(hay, needle, from, k));
    if k < i {
        assert(!occurs_at(hay, needle, k));
    }
    if i < k {
        assert(!occurs_at(hay, needle, i));
    }
}

/// A leftmost occurrence is the value of `first_index`.
pub proof fn lemma_first_index(hay: Seq<char>, needle: Seq<char>, i: int)
    requires
        is_first(hay, needle, i),
    ensures
        first_index(hay, needle) == i,
        occurs(hay, needle),
{
    lemma_first_index_from(hay, needle, 0, i);
}

/// A rightmost occurrence is the value of `last_index`.
pub proof fn lemma_last_index(hay: Seq<char>, needle: Seq<char>, i: int)
    requires
        is_last(hay, needle, i),
    ensures
        last_index(hay, needle) == i,
        occurs(hay, needle),
{
    let k = last_index(hay, needle);
    assert(is_last(hay, needle, k));
    if k < i {
        assert(!occurs_at(hay, needle, i));
    }
    if i < k {
        assert(!occurs_at(hay, needle, k));
    }
}

/// Whether `needle` stands in `hay` at index `i`.
pub fn matches_at(hay: &[char], needle: &[char], i: usize) -> (b: bool)
    ensures
        b == occurs_at(hay@, needle@, i as int),
{
    let n: usize = needle.len();
    let h: usize = hay.len();
    if i > h || n > h - i {
        return false;
    }
    let mut k: usize = 0;
    while k < n
        invariant
            n == needle@.len(),
            h == hay@.len(),
            i + n <= h,
            k <= n,
            forall|j: int| 0 <= j < k ==> hay@[i + j] == needle@[j],
        decreases n - k,
    {
        if hay[i + k] != needle[k] {
            assert(hay@.subrange(i as int, i + n)[k as int] == hay@[i + k]);
            return false;
        }
        k += 1;
    }
    assert(hay@.subrange(i as int, i + n) =~= needle@);
    true
}

/// The leftmost index at or after `from` where `needle` stands in `hay`.
pub fn find_from(hay: &[char], needle: &[char], from: usize) -> (r: Option<usize>)
    ensures
        match r {
            Some(i) => is_first_from(hay@, needle@, from as int, i as int),
            None => !occurs_from(hay@, needle@, from as int),
        },
        r is Some <==> occurs_from(hay@, needle@, from as int),
        r matches Some(i) ==> i as int == first_index_from(hay@, needle@, from as int),
        r matches Some(i) ==> i + needle@.len() <= usize::MAX,
{
    let n: usize = needle.len();
    let h: usize = hay.len();
    if n > h || from > h - n {
        return None;
    }
    let stop: usize = h - n;
    let mut i: usize = from;
    loop
        invariant
            h == hay@.len(),
            stop + n == h,
            n == needle@.len(),
            from <= i <= stop,
            forall|j: int| from <= j < i ==> !occurs_at(hay@, needle@, j),
        decreases stop - i,
    {
        if matches_at(hay, needle, i) {
            proof {
                lemma_first_index_from(hay@, needle@, from as int, i as int);
            }
            return Some(i);
        }
        if i == stop {
            return None;
        }
        i += 1;
    }
}

/// The leftmost index where `needle` stands in `hay`.
pub fn find(hay: &[char], needle: &[char]) -> (r: Option<usize>)
    ensures
        match r {
            Some(i) => is_first(hay@, needle@, i as int),
            None => !occurs(hay@, needle@),
        },
        r is Some <==> occurs(hay@, needle@),
        r matches Some(i) ==> i as int == first_index(hay@, needle@),
        r matches Some(i) ==> i + needle@.len() <= usize::MAX,
{
    let r = find_from(hay, needle, 0);
    proof {
        if let Some(i) = r {
            lemma_first_index(hay@, needle@, i as int);
        }
    }
    r
}

/// The rightmost index where `needle` stands in `hay`.
pub fn rfind(hay: &[char], needle: &[char]) -> (r: Option<usize>)
    ensures
        match r {
            Some(i) => is_last(hay@, needle@, i as int),
            None => !occurs(hay@, needle@),
        },
        r is Some <==> occurs(hay@, needle@),
        r matches Some(i) ==> i as int == last_index(hay@, needle@),
        r matches Some(i) ==> i + needle@.len() <= usize::MAX,
{
    let n: usize = needle.len();
    let h: usize = hay.len();
    if n > h {
        return None;
    }
    let mut i: usize = h - n;
    loop
        invariant
            n == needle@.len(),
            h == hay@.len(),
            i + n <= h,
            forall|j: int| i < j ==> !occurs_at(hay@, needle@, j),
        decreases i,
    {
        if matches_at(hay, needle, i) {
            proof {
                lemma_last_index(hay@, needle@, i as int);
            }
            return Some(i);
        }
        if i == 0 {
            return None;
        }
        i -= 1;
    }
}

/// The characters that `char::is_whitespace` accepts: those with the Unicode
/// property `White_Space`.
pub open spec fn is_whitespace(c: char) -> bool {
    ||| '\u{9}' <= c <= '\u{d}'
    ||| c == ' '
    ||| c == '\u{85}'
    ||| c == '\u{a0}'
    ||| c == '\u{1680}'
    ||| '\u{2000}' <= c <= '\u{200a}'
    ||| c == '\u{2028}'
    ||| c == '\u{2029}'
    ||| c == '\u{202f}'
    ||| c == '\u{205f}'
    ||| c == '\u{3000}'
}

/// Whether `c` is a whitespace character.
pub fn whitespace(c: char) -> (b: bool)
    ensures
        b == is_whitespace(c),
{
    ('\u{9}' <= c && c <= '\u{d}') || c == ' ' || c == '\u{85}' || c == '\u{a0}' || c == '\u{1680}'
        || ('\u{2000}' <= c && c <= '\u{200a}') || c == '\u{2028}' || c == '\u{2029}' || c
        == '\u{202f}' || c == '\u{205f}' || c == '\u{3000}'
}

/// `s` without its trailing whitespace.
pub open spec fn trim_end(s: Seq<char>) -> Seq<char>
    decreases s.len(),
{
    if s.len() > 0 && is_whitespace(s.last()) {
        trim_end(s.drop_last())
    } else {
        s
    }
}

/// `trim_end(s)` is the longest prefix of `s` that is empty or ends in a
/// character that is no whitespace.
pub proof fn lemma_trim_end(s: Seq<char>)
    ensures
        trim_end(s).len() <= s.len(),
        trim_end(s) == s.take(trim_end(s).len() as int),
        trim_end(s).len() > 0 ==> !is_whitespace(trim_end(s).last()),
        forall|i: int| trim_end(s).len() <= i < s.len() ==> is_whitespace(s[i]),
    decreases s.len(),
{
    if s.len() > 0 && is_whitespace(s.last()) {
        lemma_trim_end(s.drop_last());
        let t = trim_end(s);
        assert(t == s.take(t.len() as int)) by {
            assert(s.drop_last().take(t.len() as int) =~= s.take(t.len() as int));
        }
        assert forall|i: int| t.len() <= i < s.len() implies is_whitespace(s[i]) by {
            if i < s.len() - 1 {
                assert(s.drop_last()[i] == s[i]);
            }
        }
    } else {
        assert(s.take(s.len() as int) =~= s);
    }
}

/// The length of `v[..end]` once its trailing whitespace is taken off.
pub fn trim_end_len(v: &[char], end: usize) -> (n: usize)
    requires
        end <= v@.len(),
    ensures
        n <= end,
        v@.take(n as int) == trim_end(v@.take(end as int)),
{
    let mut n: usize = end;
    while n > 0 && whitespace(v[n - 1])
        invariant
            n <= end <= v@.len(),
            trim_end(v@.take(n as int)) == trim_end(v@.take(end as int)),
        decreases n,
    {
        proof {
            let s = v@.take(n as int);
            assert(s.last() == v@[n - 1]);
            assert(s.drop_last() =~= v@.take(n - 1));
        }
        n -= 1;
    }
    proof {
        let s = v@.take(n as int);
        if n > 0 {
            assert(s.last() == v@[n - 1]);
        }
    }
    n
}

} // verus!
