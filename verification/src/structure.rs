//! The shape of a relative path template: how its text falls into components,
//! and which texts are refused before any component is looked at.
//!
//! Paths are read the POSIX way: `/` is the one separator, and empty components
//! (a doubled or trailing separator) do not count. A template is refused as
//! absolute when it starts with `/` or with a drive prefix such as `C:`, and
//! as navigating when a component between separators is `.` or `..`. Nothing
//! else anchors or leads up here: a backslash is an ordinary character of a
//! component, and no rule of this module looks at it.

use crate::component::{component_ok, nfc, normalize_component, validate_component};
use crate::error::{PathFault, PathValidationError};
use crate::text::{chars_of, copy_range, string_of, trim_bounds, trimmed};
use vstd::prelude::*;
use vstd::string::StringExecFns;

verus! {

/// The character that separates the components of a path.
pub open spec fn is_separator(c: char) -> bool {
    c == '/'
}

/// The length of the longest prefix of `s` that holds no separator.
pub open spec fn run_len(s: Seq<char>) -> nat
    decreases s.len(),
{
    if s.len() == 0 || is_separator(s[0]) {
        0
    } else {
        1 + run_len(s.drop_first())
    }
}

/// The components of a path: its maximal non-empty runs of characters other
/// than the separator, from left to right.
pub open spec fn components(s: Seq<char>) -> Seq<Seq<char>>
    decreases s.len(),
{
    let k = run_len(s) as int;
    if s.len() == 0 {
        Seq::empty()
    } else if k >= s.len() {
        seq![s]
    } else if k == 0 {
        components(s.skip(1))
    } else {
        seq![s.take(k)] + components(s.skip(k + 1))
    }
}

/// Whether a component asks to stay (`.`) or to go up (`..`).
pub open spec fn is_navigation(c: Seq<char>) -> bool {
    c == seq!['.'] || c == seq!['.', '.']
}

/// Whether some component is `.` or `..`.
pub open spec fn has_navigation(comps: Seq<Seq<char>>) -> bool {
    exists|i: int| 0 <= i < comps.len() && is_navigation(#[trigger] comps[i])
}

/// Whether `s` starts at the root: its first character is the separator.
pub open spec fn is_rooted(s: Seq<char>) -> bool {
    s.len() > 0 && is_separator(s[0])
}

/// `rel` set below `base`. A rooted `rel` stands for itself; otherwise it
/// follows `base`, with one separator between the two unless `base` is empty or
/// already ends with one.
pub open spec fn join(base: Seq<char>, rel: Seq<char>) -> Seq<char> {
    if is_rooted(rel) {
        rel
    } else if base.len() == 0 || is_separator(base.last()) {
        base + rel
    } else {
        base + seq!['/'] + rel
    }
}

/// Whether `s` starts with a drive prefix: an ASCII letter and a colon.
pub open spec fn has_drive_prefix(s: Seq<char>) -> bool {
    s.len() >= 2 && ('a' <= s[0] <= 'z' || 'A' <= s[0] <= 'Z') && s[1] == ':'
}

/// Whether `s` is anchored: at the root, or at a drive.
pub open spec fn is_absolute(s: Seq<char>) -> bool {
    is_rooted(s) || has_drive_prefix(s)
}

/// Whether a component carries a placeholder: it holds a `{`.
pub open spec fn holds_placeholder(c: Seq<char>) -> bool {
    c.contains('{')
}

/// What is wrong with the shape of a trimmed path, if anything. The rules are
/// tried in this order, and the first that fails decides.
pub open spec fn shape_fault(t: Seq<char>) -> Option<PathFault> {
    if t.len() == 0 {
        Some(PathFault::EmptyPath)
    } else if t[0] == '~' {
        Some(PathFault::TildeNotAllowed)
    } else if is_absolute(t) {
        Some(PathFault::AbsolutePathNotAllowed)
    } else if has_navigation(components(t)) {
        Some(PathFault::RelativeNavigationNotAllowed)
    } else {
        None
    }
}

/// Whether a component is excused from the component rules: with `lenient`, a
/// component that carries a placeholder is.
pub open spec fn is_excused(c: Seq<char>, lenient: bool) -> bool {
    lenient && holds_placeholder(c)
}

/// The first component, from the left, that is neither excused nor acceptable
/// once normalized. It is given as it was written.
pub open spec fn first_refused(comps: Seq<Seq<char>>, lenient: bool) -> Option<Seq<char>>
    decreases comps.len(),
{
    if comps.len() == 0 {
        None
    } else if is_excused(comps[0], lenient) || component_ok(nfc(comps[0])) {
        first_refused(comps.drop_first(), lenient)
    } else {
        Some(comps[0])
    }
}

/// The verdict on a relative path that is kept as it is written. With
/// `lenient`, components that carry a placeholder are excused from the
/// component rules. A refused component is named as it was written. On success
/// the path comes back trimmed and otherwise as it was written.
pub open spec fn path_check(s: Seq<char>, lenient: bool) -> Result<Seq<char>, PathFault> {
    let t = trimmed(s);
    match shape_fault(t) {
        Some(fault) => Err(fault),
        None => match first_refused(components(t), lenient) {
            Some(name) => Err(PathFault::InvalidComponent(name)),
            None => Ok(t),
        },
    }
}

/// The verdict on a path template: components that carry a placeholder are
/// excused from the component rules, since what will stand in their place is
/// not known yet.
pub open spec fn structural_check(s: Seq<char>) -> Result<Seq<char>, PathFault> {
    path_check(s, true)
}

/// The verdict on a template whose placeholders have been filled: nothing is
/// excused any more, every component must be acceptable in normal form.
pub open spec fn filled_check(s: Seq<char>) -> Result<Seq<char>, PathFault> {
    path_check(s, false)
}

/// The components in Unicode Normalization Form C.
pub open spec fn normalized(comps: Seq<Seq<char>>) -> Seq<Seq<char>> {
    comps.map_values(|c: Seq<char>| nfc(c))
}

/// The components written one after the other, with one separator between
/// neighbours.
pub open spec fn joined(comps: Seq<Seq<char>>) -> Seq<char>
    decreases comps.len(),
{
    if comps.len() == 0 {
        Seq::empty()
    } else if comps.len() == 1 {
        comps[0]
    } else {
        joined(comps.drop_last()) + seq!['/'] + comps.last()
    }
}

/// The verdict on a fixed relative path. Every component must be acceptable in
/// normal form, a `{` excuses nothing. On success the path comes back in
/// normal form: its normalized components with single separators between
/// them.
pub open spec fn normal_check(s: Seq<char>) -> Result<Seq<char>, PathFault> {
    let t = trimmed(s);
    match shape_fault(t) {
        Some(fault) => Err(fault),
        None => match first_refused(components(t), false) {
            Some(name) => Err(PathFault::InvalidComponent(name)),
            None => Ok(joined(normalized(components(t)))),
        },
    }
}

/// The view of a validation outcome.
pub open spec fn outcome_view(r: Result<String, PathValidationError>) -> Result<
    Seq<char>,
    PathFault,
> {
    match r {
        Ok(p) => Ok(p@),
        Err(e) => Err(e@),
    }
}

/// The texts that a list of components holds.
pub open spec fn texts(comps: Seq<Vec<char>>) -> Seq<Seq<char>> {
    comps.map_values(|c: Vec<char>| c@)
}

/// A run that is closed by a separator or by the end of the text has the
/// length it appears to have.
pub proof fn lemma_run_len(s: Seq<char>, k: int)
    requires
        0 <= k <= s.len(),
        forall|j: int| 0 <= j < k ==> !is_separator(#[trigger] s[j]),
        k == s.len() || is_separator(s[k]),
    ensures
        run_len(s) == k,
    decreases k,
{
    if k > 0 {
        lemma_run_len(s.drop_first(), k - 1);
    }
}

/// Splits a path into its components.
pub fn split_components(v: &Vec<char>) -> (comps: Vec<Vec<char>>)
    ensures
        texts(comps@) == components(v@),
{
    let n = v.len();
    let mut comps: Vec<Vec<char>> = Vec::new();
    let mut i: usize = 0;
    proof {
        assert(v@.skip(0) == v@);
        assert(texts(comps@) + components(v@) == components(v@));
    }
    while i < n
        invariant
            i <= n == v.len(),
            texts(comps@) + components(v@.skip(i as int)) == components(v@),
        decreases n - i,
    {
        let mut j: usize = i;
        while j < n && v[j] != '/'
            invariant
                i <= j <= n == v.len(),
                forall|k: int| i <= k < j ==> !is_separator(#[trigger] v@[k]),
            decreases n - j,
        {
            j += 1;
        }
        let ghost rest = v@.skip(i as int);
        let ghost before = texts(comps@);
        proof {
            assert forall|k: int| 0 <= k < j - i implies !is_separator(#[trigger] rest[k]) by {
                assert(rest[k] == v@[i + k]);
            }
            lemma_run_len(rest, j - i);
        }
        if j > i {
            let piece = copy_range(v, i, j);
            comps.push(piece);
            proof {
                assert(piece@ == rest.take(j - i));
                assert(texts(comps@) == before + seq![piece@]);
            }
        }
        if j < n {
            proof {
                assert(rest.skip(j - i + 1) == v@.skip(j + 1));
                assert(texts(comps@) + components(v@.skip(j + 1)) == components(v@));
            }
            i = j + 1;
        } else {
            proof {
                assert(rest.take(j - i) == rest);
                assert(components(v@.skip(n as int)) == Seq::<Seq<char>>::empty());
                assert(texts(comps@) + components(v@.skip(n as int)) == components(v@));
            }
            i = n;
        }
    }
    proof {
        assert(components(v@.skip(n as int)) == Seq::<Seq<char>>::empty());
        assert(texts(comps@) + Seq::<Seq<char>>::empty() == texts(comps@));
    }
    comps
}

fn is_navigation_component(c: &Vec<char>) -> (b: bool)
    ensures
        b == is_navigation(c@),
{
    let b = (c.len() == 1 && c[0] == '.') || (c.len() == 2 && c[0] == '.' && c[1] == '.');
    proof {
        if b {
            if c.len() == 1 {
                assert(c@ =~= seq!['.']);
            } else {
                assert(c@ =~= seq!['.', '.']);
            }
        } else {
            assert(seq!['.'].len() == 1 && seq!['.'][0] == '.');
            assert(seq!['.', '.'].len() == 2 && seq!['.', '.'][0] == '.' && seq!['.', '.'][1]
                == '.');
        }
    }
    b
}

fn any_navigation(comps: &Vec<Vec<char>>) -> (b: bool)
    ensures
        b == has_navigation(texts(comps@)),
{
    let mut i: usize = 0;
    while i < comps.len()
        invariant
            i <= comps.len(),
            forall|j: int| 0 <= j < i ==> !is_navigation(#[trigger] texts(comps@)[j]),
        decreases comps.len() - i,
    {
        if is_navigation_component(&comps[i]) {
            assert(is_navigation(texts(comps@)[i as int]));
            return true;
        }
        i += 1;
    }
    false
}

fn is_absolute_path(t: &Vec<char>) -> (b: bool)
    ensures
        b == is_absolute(t@),
{
    if t.len() > 0 && t[0] == '/' {
        return true;
    }
    t.len() >= 2 && (('a' <= t[0] && t[0] <= 'z') || ('A' <= t[0] && t[0] <= 'Z')) && t[1] == ':'
}

fn contains_brace(c: &Vec<char>) -> (b: bool)
    ensures
        b == holds_placeholder(c@),
{
    let mut i: usize = 0;
    while i < c.len()
        invariant
            i <= c.len(),
            forall|j: int| 0 <= j < i ==> c@[j] != '{',
        decreases c.len() - i,
    {
        if c[i] == '{' {
            return true;
        }
        i += 1;
    }
    false
}

/// Sets `rel` below `base`.
pub fn join_paths(base: &str, rel: &str) -> (r: String)
    ensures
        r@ == join(base@, rel@),
{
    let b = chars_of(base);
    let p = chars_of(rel);
    if p.len() > 0 && p[0] == '/' {
        return String::from_str(rel);
    }
    let mut r = String::from_str(base);
    if b.len() > 0 && b[b.len() - 1] != '/' {
        r.push('/');
    }
    r.append(rel);
    r
}

/// The trimmed text of a path and its components, or the fault in its shape.
pub(crate) fn read_shape(path: &str) -> (r: Result<(Vec<char>, Vec<Vec<char>>), PathValidationError>)
    ensures
        match r {
            Ok((t, comps)) => {
                &&& shape_fault(trimmed(path@)) is None
                &&& t@ == trimmed(path@)
                &&& texts(comps@) == components(t@)
            },
            Err(e) => shape_fault(trimmed(path@)) == Some(e@),
        },
{
    let v = chars_of(path);
    let (from, to) = trim_bounds(&v);
    let t = copy_range(&v, from, to);
    if t.len() == 0 {
        return Err(PathValidationError::EmptyPath);
    }
    if t[0] == '~' {
        return Err(PathValidationError::TildeNotAllowed);
    }
    if is_absolute_path(&t) {
        return Err(PathValidationError::AbsolutePathNotAllowed);
    }
    let comps = split_components(&t);
    if any_navigation(&comps) {
        return Err(PathValidationError::RelativeNavigationNotAllowed);
    }
    Ok((t, comps))
}

/// Normalizes one component and checks it against the component rules. A
/// component that is refused is reported as it was written.
pub(crate) fn check_normalized(c: &Vec<char>) -> (r: Result<String, PathValidationError>)
    ensures
        match r {
            Ok(norm) => norm@ == nfc(c@) && component_ok(nfc(c@)),
            Err(e) => e@ == PathFault::InvalidComponent(c@) && !component_ok(nfc(c@)),
        },
{
    let written = string_of(c, 0, c.len());
    assert(written@ == c@) by {
        assert(c@.subrange(0, c@.len() as int) == c@);
    }
    let norm = normalize_component(written.as_str());
    match validate_component(norm.as_str()) {
        Ok(_) => Ok(norm),
        Err(_) => Err(PathValidationError::InvalidComponent(written)),
    }
}

/// The worker behind [`validate_structural_path`] and [`validate_filled_path`].
fn check_path(path: &str, lenient: bool) -> (r: Result<String, PathValidationError>)
    ensures
        outcome_view(r) == path_check(path@, lenient),
{
    let (t, comps) = match read_shape(path) {
        Ok(shape) => shape,
        Err(e) => { return Err(e); },
    };
    let ghost all = texts(comps@);
    let mut i: usize = 0;
    proof {
        assert(all.skip(0) == all);
    }
    while i < comps.len()
        invariant
            i <= comps.len(),
            all == texts(comps@),
            all == components(trimmed(path@)),
            shape_fault(trimmed(path@)) is None,
            first_refused(all, lenient) == first_refused(all.skip(i as int), lenient),
        decreases comps.len() - i,
    {
        proof {
            assert(all.skip(i as int).len() > 0);
            assert(all.skip(i as int)[0] == comps@[i as int]@);
            assert(all.skip(i as int).drop_first() == all.skip(i + 1));
        }
        if !(lenient && contains_brace(&comps[i])) {
            match check_normalized(&comps[i]) {
                Ok(_) => {},
                Err(e) => {
                    assert(first_refused(all.skip(i as int), lenient) == Some(comps@[i as int]@));
                    return Err(e);
                },
            }
        }
        i += 1;
    }
    let accepted = string_of(&t, 0, t.len());
    proof {
        assert(t@.subrange(0, t@.len() as int) == t@);
    }
    Ok(accepted)
}

/// Validates a relative path template.
///
/// The template is trimmed of white space. It is refused when nothing is left,
/// when it starts with `~`, when it is absolute, when a component is `.` or
/// `..`, and when a component without `{` is not acceptable in Unicode
/// Normalization Form C; the first of these that applies is the error, and a
/// refused component is named as it was written. A component with `{` carries
/// a placeholder and is not checked here.
///
/// An accepted template is returned trimmed, with its placeholders in place.
pub fn validate_structural_path(relative_path: &str) -> (r: Result<String, PathValidationError>)
    ensures
        outcome_view(r) == structural_check(relative_path@),
{
    check_path(relative_path, true)
}

/// Validates a relative path that came out of a template by filling its
/// placeholders.
///
/// The rules are those of [`validate_structural_path`], but for one: a `{`
/// excuses nothing. What stood in place of a placeholder is checked like any
/// other text, so a value cannot bring in what the template itself could not
/// hold. A placeholder that was left unfilled is judged as the text it is.
///
/// An accepted path is returned trimmed.
pub fn validate_filled_path(relative_path: &str) -> (r: Result<String, PathValidationError>)
    ensures
        outcome_view(r) == filled_check(relative_path@),
{
    check_path(relative_path, false)
}

} // verus!
