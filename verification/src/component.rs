//! Rules for one component of a path: the text between two separators.
//!
//! A component must be usable as a file name on every supported system, so the
//! rules are those of the strictest one: no character from `< > " : | ? *`, no
//! reserved device name in any mix of upper and lower case, no space or dot at
//! the end.

use crate::error::{PathFault, PathValidationError};
use crate::text::{ascii_upper, ascii_uppercase, chars_of, string_of};
use unicode_normalization::UnicodeNormalization;
use vstd::prelude::*;

verus! {

/// Unicode Normalization Form C of a text: canonical decomposition followed by
/// canonical composition, as the `unicode-normalization` crate computes it.
pub uninterp spec fn nfc(s: Seq<char>) -> Seq<char>;

/// Brings a path component into Unicode Normalization Form C, so that texts
/// which differ only in how an accented letter is encoded become equal.
///
/// This is `UnicodeNormalization::nfc` of the `unicode-normalization` crate,
/// collected into a string. Its result depends on the characters of `s` alone;
/// the contract gives that result the name [`nfc`] and claims nothing else.
#[verifier::external_body]
pub fn normalize_component(s: &str) -> (r: String)
    ensures
        r@ == nfc(s@),
{
    s.nfc().collect()
}

/// Whether `c` is one of `< > " : | ? *`.
pub open spec fn is_forbidden_char(c: char) -> bool {
    c == '<' || c == '>' || c == '"' || c == ':' || c == '|' || c == '?' || c == '*'
}

/// Whether some character of `name` is forbidden.
pub open spec fn has_forbidden_char(name: Seq<char>) -> bool {
    exists|i: int| 0 <= i < name.len() && is_forbidden_char(#[trigger] name[i])
}

/// Whether `name` is a reserved device name, whatever the case of its letters:
/// `CON`, `PRN`, `AUX`, `NUL`, `COM1` to `COM9`, `LPT1` to `LPT9`.
pub open spec fn is_reserved_name(name: Seq<char>) -> bool {
    let up = ascii_uppercase(name);
    ||| up == seq!['C', 'O', 'N']
    ||| up == seq!['P', 'R', 'N']
    ||| up == seq!['A', 'U', 'X']
    ||| up == seq!['N', 'U', 'L']
    ||| (up.len() == 4 && '1' <= up[3] <= '9' && (up.take(3) == seq!['C', 'O', 'M'] || up.take(3)
        == seq!['L', 'P', 'T']))
}

/// Whether `name` ends with a space or a dot.
pub open spec fn has_bad_ending(name: Seq<char>) -> bool {
    name.len() > 0 && (name.last() == ' ' || name.last() == '.')
}

/// Whether `name` passes every rule for a component.
pub open spec fn component_ok(name: Seq<char>) -> bool {
    !has_forbidden_char(name) && !is_reserved_name(name) && !has_bad_ending(name)
}

/// The verdict on a component: accepted, or refused under its own name.
pub open spec fn component_check(name: Seq<char>) -> Result<(), PathFault> {
    if component_ok(name) {
        Ok(())
    } else {
        Err(PathFault::InvalidComponent(name))
    }
}

/// The view of a verdict on a component.
pub open spec fn verdict_view(r: Result<(), PathValidationError>) -> Result<(), PathFault> {
    match r {
        Ok(_) => Ok(()),
        Err(e) => Err(e@),
    }
}

proof fn lemma_three(s: Seq<char>, a: char, b: char, c: char)
    ensures
        s == seq![a, b, c] <==> s.len() == 3 && s[0] == a && s[1] == b && s[2] == c,
{
    if s.len() == 3 && s[0] == a && s[1] == b && s[2] == c {
        assert(s =~= seq![a, b, c]);
    }
}

fn char_is_forbidden(c: char) -> (b: bool)
    ensures
        b == is_forbidden_char(c),
{
    c == '<' || c == '>' || c == '"' || c == ':' || c == '|' || c == '?' || c == '*'
}

/// Whether `c` is the letter given in both cases as `upper` and `lower`.
fn is_letter(c: char, upper: char, lower: char) -> (b: bool)
    requires
        'A' <= upper <= 'Z',
        lower as u32 == upper as u32 + 32,
    ensures
        b == (ascii_upper(c) == upper),
{
    c == upper || c == lower
}

fn contains_forbidden(v: &Vec<char>) -> (b: bool)
    ensures
        b == has_forbidden_char(v@),
{
    let mut i: usize = 0;
    while i < v.len()
        invariant
            i <= v.len(),
            forall|j: int| 0 <= j < i ==> !is_forbidden_char(#[trigger] v@[j]),
        decreases v.len() - i,
    {
        if char_is_forbidden(v[i]) {
            return true;
        }
        i += 1;
    }
    false
}

fn is_reserved(v: &Vec<char>) -> (b: bool)
    ensures
        b == is_reserved_name(v@),
{
    let ghost up = ascii_uppercase(v@);
    proof {
        assert(up.len() == v@.len());
        assert(forall|i: int| 0 <= i < up.len() ==> up[i] == ascii_upper(v@[i]));
        lemma_three(up, 'C', 'O', 'N');
        lemma_three(up, 'P', 'R', 'N');
        lemma_three(up, 'A', 'U', 'X');
        lemma_three(up, 'N', 'U', 'L');
    }
    let n = v.len();
    if n == 3 {
        (is_letter(v[0], 'C', 'c') && is_letter(v[1], 'O', 'o') && is_letter(v[2], 'N', 'n')) || (
        is_letter(v[0], 'P', 'p') && is_letter(v[1], 'R', 'r') && is_letter(v[2], 'N', 'n')) || (
        is_letter(v[0], 'A', 'a') && is_letter(v[1], 'U', 'u') && is_letter(v[2], 'X', 'x')) || (
        is_letter(v[0], 'N', 'n') && is_letter(v[1], 'U', 'u') && is_letter(v[2], 'L', 'l'))
    } else if n == 4 {
        proof {
            let stem = up.take(3);
            assert(stem.len() == 3 && stem[0] == up[0] && stem[1] == up[1] && stem[2] == up[2]);
            lemma_three(stem, 'C', 'O', 'M');
            lemma_three(stem, 'L', 'P', 'T');
            assert(('1' <= up[3] <= '9') == ('1' <= v@[3] <= '9'));
        }
        let digit = '1' <= v[3] && v[3] <= '9';
        digit && ((is_letter(v[0], 'C', 'c') && is_letter(v[1], 'O', 'o') && is_letter(
            v[2],
            'M',
            'm',
        )) || (is_letter(v[0], 'L', 'l') && is_letter(v[1], 'P', 'p') && is_letter(v[2], 'T', 't')))
    } else {
        false
    }
}

/// Checks one path component against the rules of this module.
///
/// The component is accepted exactly when it holds no forbidden character, is
/// no reserved device name and does not end with a space or a dot. A refused
/// component is reported as `InvalidComponent` with the component itself.
pub fn validate_component(name: &str) -> (r: Result<(), PathValidationError>)
    ensures
        verdict_view(r) == component_check(name@),
{
    let v = chars_of(name);
    let n = v.len();
    let bad = contains_forbidden(&v) || is_reserved(&v) || (n > 0 && (v[n - 1] == ' ' || v[n - 1]
        == '.'));
    if bad {
        let shown = string_of(&v, 0, n);
        assert(shown@ == name@) by {
            assert(v@.subrange(0, n as int) == v@);
        }
        Err(PathValidationError::InvalidComponent(shown))
    } else {
        Ok(())
    }
}

/// A component with a forbidden character is refused, wherever the character
/// stands and whatever else the component holds.
pub proof fn lemma_forbidden_char_refused(name: Seq<char>, i: int)
    requires
        0 <= i < name.len(),
        is_forbidden_char(name[i]),
    ensures
        component_check(name) == Err::<(), PathFault>(PathFault::InvalidComponent(name)),
{
}

/// Reserved names are recognised without regard to the case of ASCII letters:
/// two names that agree once their letters are in upper case are both reserved
/// or both free.
pub proof fn lemma_reserved_ignores_case(a: Seq<char>, b: Seq<char>)
    requires
        ascii_uppercase(a) == ascii_uppercase(b),
    ensures
        is_reserved_name(a) == is_reserved_name(b),
{
}

} // verus!
