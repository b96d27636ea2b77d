//! Filling the placeholders of a template.
//!
//! A placeholder is a name in braces, `{name}`. A field gives a name and a
//! value; to resolve a template is to replace, field by field and in the order
//! of the fields, every occurrence of the field's placeholder by the text of
//! its value. Placeholders that no field names stay as they are.

use crate::text::{chars_of, copy_range, string_of};
use vstd::prelude::*;

verus! {

/// The placeholder for a name: the name in braces.
pub open spec fn placeholder(name: Seq<char>) -> Seq<char> {
    seq!['{'] + name + seq!['}']
}

/// `s` with every occurrence of `pat` replaced by `to`. Occurrences are found
/// from left to right and do not overlap; what was put in is not searched
/// again. An empty `pat` occurs nowhere.
pub open spec fn replace_all(s: Seq<char>, pat: Seq<char>, to: Seq<char>) -> Seq<char>
    decreases s.len(),
{
    if pat.len() == 0 || s.len() < pat.len() {
        s
    } else if s.take(pat.len() as int) == pat {
        to + replace_all(s.skip(pat.len() as int), pat, to)
    } else {
        seq![s[0]] + replace_all(s.skip(1), pat, to)
    }
}

/// The character for a decimal digit.
pub open spec fn digit_char(d: nat) -> char {
    (d + 48) as char
}

/// The decimal numeral of `n`, without leading zeros.
pub open spec fn decimal(n: nat) -> Seq<char>
    decreases n,
{
    if n < 10 {
        seq![digit_char(n)]
    } else {
        decimal(n / 10).push(digit_char(n % 10))
    }
}

/// The decimal numeral of `i`, with a minus sign before a negative number.
pub open spec fn signed_decimal(i: int) -> Seq<char> {
    if i < 0 {
        seq!['-'] + decimal((-i) as nat)
    } else {
        decimal(i as nat)
    }
}

/// A value that can fill a placeholder.
#[derive(Debug, Clone, PartialEq, Eq)]
pub enum FieldValue {
    /// A text, used as it is.
    Text(String),
    /// A signed integer, written in decimal.
    Signed(i128),
    /// An unsigned integer, written in decimal.
    Unsigned(u128),
    /// A truth value, written `true` or `false`.
    Bool(bool),
}

impl View for FieldValue {
    type V = Seq<char>;

    /// The text that stands for the value in a path.
    open spec fn view(&self) -> Seq<char> {
        match *self {
            FieldValue::Text(s) => s@,
            FieldValue::Signed(i) => signed_decimal(i as int),
            FieldValue::Unsigned(n) => decimal(n as nat),
            FieldValue::Bool(b) => if b {
                "true"@
            } else {
                "false"@
            },
        }
    }
}

/// A named value: what to put in place of `{name}`.
#[derive(Debug, Clone, PartialEq, Eq)]
pub struct Field {
    /// The name of the placeholder, without braces.
    pub name: String,
    /// The value to put in its place.
    pub value: FieldValue,
}

impl View for Field {
    type V = (Seq<char>, Seq<char>);

    /// The name and the text of the value.
    open spec fn view(&self) -> (Seq<char>, Seq<char>) {
        (self.name@, self.value@)
    }
}

/// The names and texts of a list of fields.
pub open spec fn field_views(fields: Seq<Field>) -> Seq<(Seq<char>, Seq<char>)> {
    fields.map_values(|f: Field| f@)
}

/// The template with the fields filled in, one field after the other.
pub open spec fn substitute(template: Seq<char>, fields: Seq<(Seq<char>, Seq<char>)>) -> Seq<
    char,
>
    decreases fields.len(),
{
    if fields.len() == 0 {
        template
    } else {
        substitute(
            replace_all(template, placeholder(fields[0].0), fields[0].1),
            fields.drop_first(),
        )
    }
}

fn digit_of(d: u8) -> (c: char)
    requires
        d < 10,
    ensures
        c == digit_char(d as nat),
{
    if d == 0 {
        '0'
    } else if d == 1 {
        '1'
    } else if d == 2 {
        '2'
    } else if d == 3 {
        '3'
    } else if d == 4 {
        '4'
    } else if d == 5 {
        '5'
    } else if d == 6 {
        '6'
    } else if d == 7 {
        '7'
    } else if d == 8 {
        '8'
    } else {
        '9'
    }
}

/// Appends the characters of `w` to `v`.
fn extend(v: &mut Vec<char>, w: &Vec<char>)
    ensures
        final(v)@ == old(v)@ + w@,
{
    let mut i: usize = 0;
    while i < w.len()
        invariant
            i <= w.len(),
            v@ == old(v)@ + w@.take(i as int),
        decreases w.len() - i,
    {
        v.push(w[i]);
        i += 1;
    }
    assert(w@.take(w@.len() as int) == w@);
}

/// The decimal numeral of `n`.
fn decimal_chars(n: u128) -> (v: Vec<char>)
    ensures
        v@ == decimal(n as nat),
{
    let mut rev: Vec<char> = Vec::new();
    let mut m: u128 = n;
    while m >= 10
        invariant
            decimal(n as nat) == decimal(m as nat) + rev@.reverse(),
        decreases m,
    {
        let d: u8 = (m % 10) as u8;
        proof {
            let before = rev@;
            let c = digit_char((m % 10) as nat);
            assert(before.push(c).reverse() == seq![c] + before.reverse());
            assert(decimal(m as nat) == decimal((m / 10) as nat).push(c));
            assert(decimal((m / 10) as nat).push(c) + before.reverse() == decimal(
                (m / 10) as nat,
            ) + (seq![c] + before.reverse()));
        }
        rev.push(digit_of(d));
        m = m / 10;
    }
    proof {
        let before = rev@;
        let c = digit_char(m as nat);
        assert(before.push(c).reverse() == seq![c] + before.reverse());
    }
    rev.push(digit_of(m as u8));
    let mut v: Vec<char> = Vec::new();
    let mut k: usize = rev.len();
    while k > 0
        invariant
            k <= rev.len(),
            v@ == rev@.reverse().take(rev.len() - k),
        decreases k,
    {
        k -= 1;
        proof {
            let r = rev@.reverse();
            assert(r.take(rev.len() - k) == r.take(rev.len() - k - 1).push(rev@[k as int]));
        }
        v.push(rev[k]);
    }
    assert(rev@.reverse().take(rev@.len() as int) == rev@.reverse());
    v
}

impl FieldValue {
    /// The characters that stand for the value in a path.
    fn chars(&self) -> (v: Vec<char>)
        ensures
            v@ == self@,
    {
        match self {
            FieldValue::Text(s) => chars_of(s.as_str()),
            FieldValue::Signed(i) => {
                if *i < 0 {
                    let magnitude: u128 = ((-(*i + 1)) as u128) + 1;
                    let mut v: Vec<char> = Vec::new();
                    v.push('-');
                    let digits = decimal_chars(magnitude);
                    extend(&mut v, &digits);
                    v
                } else {
                    decimal_chars(*i as u128)
                }
            },
            FieldValue::Unsigned(n) => decimal_chars(*n),
            FieldValue::Bool(b) => if *b {
                chars_of("true")
            } else {
                chars_of("false")
            },
        }
    }

    /// The text that stands for the value in a path: a text as it is, an
    /// integer in decimal, a truth value as `true` or `false`.
    pub fn to_text(&self) -> (s: String)
        ensures
            s@ == self@,
    {
        let v = self.chars();
        assert(v@.subrange(0, v@.len() as int) == v@);
        string_of(&v, 0, v.len())
    }
}

impl Field {
    /// The field that puts `value` in place of `{name}`.
    pub fn new(name: &str, value: FieldValue) -> (f: Field)
        ensures
            f@ == (name@, value@),
    {
        Field { name: String::from_str(name), value }
    }
}

/// Whether `pat` stands in `s` at position `at`.
fn occurs_at(s: &Vec<char>, at: usize, pat: &Vec<char>) -> (b: bool)
    requires
        at + pat.len() <= s.len(),
    ensures
        b == (s@.skip(at as int).take(pat.len() as int) == pat@),
{
    let ghost window = s@.skip(at as int).take(pat.len() as int);
    let mut k: usize = 0;
    while k < pat.len()
        invariant
            k <= pat.len(),
            at + pat.len() <= s.len(),
            window == s@.skip(at as int).take(pat.len() as int),
            forall|j: int| 0 <= j < k ==> window[j] == pat@[j],
        decreases pat.len() - k,
    {
        if s[at + k] != pat[k] {
            assert(window[k as int] != pat@[k as int]);
            return false;
        }
        k += 1;
    }
    assert(window =~= pat@);
    true
}

/// Replaces every occurrence of `pat` in `s` by `to`.
pub fn replace_chars(s: &Vec<char>, pat: &Vec<char>, to: &Vec<char>) -> (r: Vec<char>)
    ensures
        r@ == replace_all(s@, pat@, to@),
{
    let n = s.len();
    let m = pat.len();
    let mut r: Vec<char> = Vec::new();
    let mut i: usize = 0;
    proof {
        assert(s@.skip(0) == s@);
        assert(r@ + replace_all(s@, pat@, to@) == replace_all(s@, pat@, to@));
    }
    if m == 0 {
        extend(&mut r, s);
        return r;
    }
    while i < n && n - i >= m
        invariant
            i <= n == s.len(),
            m == pat.len(),
            m > 0,
            r@ + replace_all(s@.skip(i as int), pat@, to@) == replace_all(s@, pat@, to@),
        decreases n - i,
    {
        let ghost rest = s@.skip(i as int);
        let ghost before = r@;
        if occurs_at(s, i, pat) {
            extend(&mut r, to);
            proof {
                assert(rest.skip(m as int) == s@.skip(i + m));
                assert(before + (to@ + replace_all(rest.skip(m as int), pat@, to@)) == (before
                    + to@) + replace_all(rest.skip(m as int), pat@, to@));
            }
            i = i + m;
        } else {
            r.push(s[i]);
            proof {
                assert(rest.skip(1) == s@.skip(i + 1));
                assert(before + (seq![rest[0]] + replace_all(rest.skip(1), pat@, to@)) == (
                before.push(rest[0])) + replace_all(rest.skip(1), pat@, to@));
            }
            i = i + 1;
        }
    }
    let tail_from = i;
    while i < n
        invariant
            tail_from <= i <= n == s.len(),
            n - tail_from < pat.len(),
            r@ + s@.subrange(i as int, n as int) == replace_all(s@, pat@, to@),
        decreases n - i,
    {
        proof {
            let before = r@;
            let rest = s@.subrange(i as int, n as int);
            assert(rest == seq![s@[i as int]] + s@.subrange(i + 1, n as int));
            assert(before + (seq![s@[i as int]] + s@.subrange(i + 1, n as int)) == before.push(
                s@[i as int],
            ) + s@.subrange(i + 1, n as int));
        }
        r.push(s[i]);
        i += 1;
    }
    assert(r@ + s@.subrange(n as int, n as int) == r@);
    r
}

/// The placeholder for a name, as characters.
fn placeholder_chars(name: &str) -> (p: Vec<char>)
    ensures
        p@ == placeholder(name@),
{
    let mut p: Vec<char> = Vec::new();
    p.push('{');
    let inner = chars_of(name);
    extend(&mut p, &inner);
    p.push('}');
    p
}

/// Fills the placeholders of a template.
///
/// For each field in turn, every occurrence of `{name}` is replaced by the text
/// of the field's value. A placeholder that no field names is left as it is,
/// and a field whose placeholder does not occur changes nothing.
pub fn resolve_template(template: &str, fields: &Vec<Field>) -> (r: String)
    ensures
        r@ == substitute(template@, field_views(fields@)),
{
    let ghost all = field_views(fields@);
    let mut cur = chars_of(template);
    let mut i: usize = 0;
    proof {
        assert(all.skip(0) == all);
    }
    while i < fields.len()
        invariant
            i <= fields.len(),
            all == field_views(fields@),
            substitute(template@, all) == substitute(cur@, all.skip(i as int)),
        decreases fields.len() - i,
    {
        proof {
            assert(all.skip(i as int).len() > 0);
            assert(all.skip(i as int)[0] == fields@[i as int]@);
            assert(all.skip(i as int).drop_first() == all.skip(i + 1));
        }
        let pat = placeholder_chars(fields[i].name.as_str());
        let to = fields[i].value.chars();
        cur = replace_chars(&cur, &pat, &to);
        i += 1;
    }
    assert(cur@.subrange(0, cur@.len() as int) == cur@);
    string_of(&cur, 0, cur.len())
}

/// The length of the longest prefix of `s` that holds no brace.
pub open spec fn name_len(s: Seq<char>) -> nat
    decreases s.len(),
{
    if s.len() == 0 || s[0] == '{' || s[0] == '}' {
        0
    } else {
        1 + name_len(s.drop_first())
    }
}

/// The names of the placeholders that stand in `s`, from left to right, a
/// name as often as its placeholder stands there. A placeholder is an opening
/// brace, a name without braces, and a closing brace.
pub open spec fn marker_names(s: Seq<char>) -> Seq<Seq<char>>
    decreases s.len(),
{
    let k = name_len(s.skip(1)) as int;
    if s.len() == 0 {
        Seq::empty()
    } else if s[0] == '{' && k + 1 < s.len() && s[k + 1] == '}' {
        seq![s.subrange(1, k + 1)] + marker_names(s.skip(k + 2))
    } else {
        marker_names(s.skip(1))
    }
}

/// The names of a list without repeats: each name where it first appears.
pub open spec fn first_appearances(names: Seq<Seq<char>>) -> Seq<Seq<char>>
    decreases names.len(),
{
    if names.len() == 0 {
        Seq::empty()
    } else {
        let earlier = first_appearances(names.drop_last());
        if earlier.contains(names.last()) {
            earlier
        } else {
            earlier.push(names.last())
        }
    }
}

/// The names that a template asks for: the names of its placeholders, each
/// once, in the order in which they first appear.
pub open spec fn placeholder_names(template: Seq<char>) -> Seq<Seq<char>> {
    first_appearances(marker_names(template))
}

/// The texts of a list of names.
pub open spec fn name_texts(names: Seq<Vec<char>>) -> Seq<Seq<char>> {
    names.map_values(|name: Vec<char>| name@)
}

/// The texts of a list of strings.
pub open spec fn string_texts(names: Seq<String>) -> Seq<Seq<char>> {
    names.map_values(|name: String| name@)
}

/// A name that is closed by a brace or by the end of the text has the length
/// it appears to have.
pub proof fn lemma_name_len(s: Seq<char>, k: int)
    requires
        0 <= k <= s.len(),
        forall|j: int| 0 <= j < k ==> s[j] != '{' && s[j] != '}',
        k == s.len() || s[k] == '{' || s[k] == '}',
    ensures
        name_len(s) == k,
    decreases k,
{
    if k > 0 {
        lemma_name_len(s.drop_first(), k - 1);
    }
}

fn same_chars(a: &Vec<char>, b: &Vec<char>) -> (r: bool)
    ensures
        r == (a@ == b@),
{
    if a.len() != b.len() {
        return false;
    }
    let mut i: usize = 0;
    while i < a.len()
        invariant
            i <= a.len() == b.len(),
            forall|j: int| 0 <= j < i ==> a@[j] == b@[j],
        decreases a.len() - i,
    {
        if a[i] != b[i] {
            return false;
        }
        i += 1;
    }
    assert(a@ =~= b@);
    true
}

fn holds_name(names: &Vec<Vec<char>>, name: &Vec<char>) -> (r: bool)
    ensures
        r == name_texts(names@).contains(name@),
{
    let mut i: usize = 0;
    while i < names.len()
        invariant
            i <= names.len(),
            forall|j: int| 0 <= j < i ==> name_texts(names@)[j] != name@,
        decreases names.len() - i,
    {
        if same_chars(&names[i], name) {
            assert(name_texts(names@)[i as int] == name@);
            return true;
        }
        i += 1;
    }
    false
}

/// The names that a template asks for, each once, in the order in which they
/// first appear.
pub fn placeholders(template: &str) -> (names: Vec<String>)
    ensures
        string_texts(names@) == placeholder_names(template@),
{
    let v = chars_of(template);
    let n = v.len();
    let mut found: Vec<Vec<char>> = Vec::new();
    let ghost mut seen: Seq<Seq<char>> = Seq::empty();
    let mut i: usize = 0;
    proof {
        assert(v@.skip(0) == v@);
        assert(seen + marker_names(v@) == marker_names(v@));
        assert(name_texts(found@) =~= Seq::empty());
    }
    while i < n
        invariant
            i <= n == v.len(),
            seen + marker_names(v@.skip(i as int)) == marker_names(v@),
            name_texts(found@) == first_appearances(seen),
        decreases n - i,
    {
        let ghost rest = v@.skip(i as int);
        let mut next: usize = i + 1;
        if v[i] == '{' {
            let mut j: usize = i + 1;
            while j < n && v[j] != '{' && v[j] != '}'
                invariant
                    i < j <= n == v.len(),
                    forall|k: int| i < k < j ==> v@[k] != '{' && v@[k] != '}',
                decreases n - j,
            {
                j += 1;
            }
            proof {
                let inner = rest.skip(1);
                assert forall|k: int| 0 <= k < j - i - 1 implies inner[k] != '{' && inner[k]
                    != '}' by {
                    assert(inner[k] == v@[i + 1 + k]);
                }
                if j < n {
                    assert(inner[j - i - 1] == v@[j as int]);
                }
                lemma_name_len(inner, j - i - 1);
            }
            if j < n && v[j] == '}' {
                let name = copy_range(&v, i + 1, j);
                let ghost before = seen;
                let ghost found_before = name_texts(found@);
                proof {
                    assert(rest[j - i] == v@[j as int]);
                    assert(rest.subrange(1, j - i) == name@);
                    assert(rest.skip(j - i + 1) == v@.skip(j + 1));
                    seen = before.push(name@);
                    assert(seen.drop_last() == before);
                    assert(before + (seq![name@] + marker_names(v@.skip(j + 1))) == seen
                        + marker_names(v@.skip(j + 1)));
                }
                if !holds_name(&found, &name) {
                    found.push(name);
                    proof {
                        assert(name_texts(found@) =~= found_before.push(name@));
                    }
                }
                next = j + 1;
            }
        }
        proof {
            if next == i + 1 {
                assert(rest.skip(1) == v@.skip(i + 1));
            }
        }
        i = next;
    }
    proof {
        assert(marker_names(v@.skip(n as int)) == Seq::<Seq<char>>::empty());
        assert(seen + Seq::<Seq<char>>::empty() == seen);
    }
    let mut names: Vec<String> = Vec::new();
    let mut k: usize = 0;
    while k < found.len()
        invariant
            k <= found.len(),
            string_texts(names@) == name_texts(found@).take(k as int),
        decreases found.len() - k,
    {
        let name = string_of(&found[k], 0, found[k].len());
        proof {
            let chars = found@[k as int]@;
            assert(chars.subrange(0, chars.len() as int) == chars);
            assert(name_texts(found@).take(k + 1) == name_texts(found@).take(k as int).push(
                chars,
            ));
        }
        names.push(name);
        k += 1;
    }
    proof {
        assert(name_texts(found@).take(found@.len() as int) == name_texts(found@));
    }
    names
}

} // verus!
