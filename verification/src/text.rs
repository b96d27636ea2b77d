//! Characters and character sequences: the vocabulary the path rules are stated in.
//!
//! Every rule of this crate is a statement about a `Seq<char>`, the view of a
//! string. The executable functions work on `Vec<char>` and convert at the edges.

use vstd::prelude::*;

verus! {

/// `String::push` appends exactly one character to the end of the string.
pub assume_specification[ String::push ](s: &mut String, ch: char)
    ensures
        final(s)@ == old(s)@.push(ch),
;

/// Whether `c` has the Unicode `White_Space` property.
pub open spec fn is_whitespace(c: char) -> bool {
    ||| '\u{9}' <= c <= '\u{D}'
    ||| c == ' '
    ||| c == '\u{85}'
    ||| c == '\u{A0}'
    ||| c == '\u{1680}'
    ||| '\u{2000}' <= c <= '\u{200A}'
    ||| c == '\u{2028}'
    ||| c == '\u{2029}'
    ||| c == '\u{202F}'
    ||| c == '\u{205F}'
    ||| c == '\u{3000}'
}

/// `s` without its leading white space.
pub open spec fn trim_start(s: Seq<char>) -> Seq<char>
    decreases s.len(),
{
    if s.len() > 0 && is_whitespace(s[0]) {
        trim_start(s.drop_first())
    } else {
        s
    }
}

/// `s` without its trailing white space.
pub open spec fn trim_end(s: Seq<char>) -> Seq<char>
    decreases s.len(),
{
    if s.len() > 0 && is_whitespace(s.last()) {
        trim_end(s.drop_last())
    } else {
        s
    }
}

/// `s` without leading and trailing white space.
pub open spec fn trimmed(s: Seq<char>) -> Seq<char> {
    trim_end(trim_start(s))
}

/// The upper-case form of an ASCII letter; every other character is unchanged.
pub open spec fn ascii_upper(c: char) -> char {
    if 'a' <= c <= 'z' {
        ((c as u32) - 32) as char
    } else {
        c
    }
}

/// `s` with every ASCII letter in upper case.
pub open spec fn ascii_uppercase(s: Seq<char>) -> Seq<char> {
    s.map_values(|c: char| ascii_upper(c))
}

/// The view of an optional text.
pub open spec fn text_view(r: Option<String>) -> Option<Seq<char>> {
    match r {
        Some(s) => Some(s@),
        None => None,
    }
}

/// Executable form of [`is_whitespace`].
pub fn char_is_whitespace(c: char) -> (b: bool)
    ensures
        b == is_whitespace(c),
{
    ('\u{9}' <= c && c <= '\u{D}') || c == ' ' || c == '\u{85}' || c == '\u{A0}' || c
        == '\u{1680}' || ('\u{2000}' <= c && c <= '\u{200A}') || c == '\u{2028}' || c
        == '\u{2029}' || c == '\u{202F}' || c == '\u{205F}' || c == '\u{3000}'
}

/// The characters of `s`, in order.
pub fn chars_of(s: &str) -> (v: Vec<char>)
    ensures
        v@ == s@,
{
    let mut v: Vec<char> = Vec::new();
    for c in it: s.chars()
        invariant
            v@ == it.seq().take(it.index() as int),
            it.seq() == s@,
    {
        v.push(c);
    }
    v
}

/// The string made of the characters `v[from..to]`.
pub fn string_of(v: &Vec<char>, from: usize, to: usize) -> (s: String)
    requires
        from <= to <= v.len(),
    ensures
        s@ == v@.subrange(from as int, to as int),
{
    let mut s = String::new();
    let mut i: usize = from;
    while i < to
        invariant
            from <= i <= to <= v.len(),
            s@ == v@.subrange(from as int, i as int),
        decreases to - i,
    {
        s.push(v[i]);
        i += 1;
    }
    s
}

/// A copy of the characters `v[from..to]`.
pub fn copy_range(v: &Vec<char>, from: usize, to: usize) -> (w: Vec<char>)
    requires
        from <= to <= v.len(),
    ensures
        w@ == v@.subrange(from as int, to as int),
{
    let mut w: Vec<char> = Vec::new();
    let mut i: usize = from;
    while i < to
        invariant
            from <= i <= to <= v.len(),
            w@ == v@.subrange(from as int, i as int),
        decreases to - i,
    {
        w.push(v[i]);
        i += 1;
    }
    w
}

/// The bounds of the trimmed part of `v`: `v[from..to]` is `v` without leading
/// and trailing white space.
pub fn trim_bounds(v: &Vec<char>) -> (r: (usize, usize))
    ensures
        r.0 <= r.1 <= v.len(),
        v@.subrange(r.0 as int, r.1 as int) == trimmed(v@),
{
    let n = v.len();
    let mut from: usize = 0;
    proof {
        assert(v@.subrange(0, n as int) == v@);
    }
    while from < n && char_is_whitespace(v[from])
        invariant
            from <= n == v.len(),
            trim_start(v@) == trim_start(v@.subrange(from as int, n as int)),
        decreases n - from,
    {
        proof {
            let rest = v@.subrange(from as int, n as int);
            assert(rest.drop_first() == v@.subrange(from + 1, n as int));
        }
        from += 1;
    }
    let mut to: usize = n;
    while to > from && char_is_whitespace(v[to - 1])
        invariant
            from <= to <= n == v.len(),
            trim_start(v@) == v@.subrange(from as int, n as int),
            trimmed(v@) == trim_end(v@.subrange(from as int, to as int)),
        decreases to - from,
    {
        proof {
            let rest = v@.subrange(from as int, to as int);
            assert(rest.drop_last() == v@.subrange(from as int, to - 1));
        }
        to -= 1;
    }
    (from, to)
}

/// What is left after trimming the start is a suffix of the text that is empty
/// or starts with something other than white space.
pub proof fn lemma_trim_start_shape(s: Seq<char>)
    ensures
        trim_start(s).len() <= s.len(),
        trim_start(s) == s.skip(s.len() - trim_start(s).len()),
        trim_start(s).len() > 0 ==> !is_whitespace(trim_start(s)[0]),
    decreases s.len(),
{
    if s.len() > 0 && is_whitespace(s[0]) {
        let rest = s.drop_first();
        lemma_trim_start_shape(rest);
        assert(rest.skip(rest.len() - trim_start(rest).len()) == s.skip(
            s.len() - trim_start(rest).len(),
        ));
    } else {
        assert(s.skip(0) == s);
    }
}

/// What is left after trimming the end is a prefix of the text that is empty
/// or ends with something other than white space.
pub proof fn lemma_trim_end_shape(s: Seq<char>)
    ensures
        trim_end(s).len() <= s.len(),
        trim_end(s) == s.take(trim_end(s).len() as int),
        trim_end(s).len() > 0 ==> !is_whitespace(trim_end(s).last()),
    decreases s.len(),
{
    if s.len() > 0 && is_whitespace(s.last()) {
        let rest = s.drop_last();
        lemma_trim_end_shape(rest);
        assert(rest.take(trim_end(rest).len() as int) == s.take(trim_end(rest).len() as int));
    } else {
        assert(s.take(s.len() as int) == s);
    }
}

/// A trimmed text has no white space at either end, so trimming it again
/// changes nothing.
pub proof fn lemma_trimmed_is_stable(s: Seq<char>)
    ensures
        trimmed(s).len() > 0 ==> !is_whitespace(trimmed(s)[0]) && !is_whitespace(
            trimmed(s).last(),
        ),
        trimmed(trimmed(s)) == trimmed(s),
{
    let front = trim_start(s);
    let t = trimmed(s);
    lemma_trim_start_shape(s);
    lemma_trim_end_shape(front);
    if t.len() > 0 {
        assert(t[0] == front[0]);
        assert(trim_start(t) == t);
        assert(trim_end(t) == t);
    } else {
        assert(trim_start(t) == t);
        assert(trim_end(t) == t);
    }
}

} // verus!
