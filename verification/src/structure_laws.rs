//! What holds of components, of joining, and of the verdicts of validation.

use crate::component::{component_ok, nfc};
use crate::error::PathFault;
use crate::structure::{
    components, filled_check, first_refused, has_navigation, holds_placeholder, is_absolute,
    is_excused, is_navigation, is_rooted, is_separator, join, lemma_run_len, path_check, run_len,
    structural_check,
};
use crate::text::{lemma_trimmed_is_stable, trimmed};
use vstd::prelude::*;

verus! {

/// Components that are all excused or acceptable hold none that is refused.
pub proof fn lemma_none_refused(comps: Seq<Seq<char>>, lenient: bool)
    requires
        forall|i: int|
            0 <= i < comps.len() ==> is_excused(#[trigger] comps[i], lenient) || component_ok(
                nfc(comps[i]),
            ),
    ensures
        first_refused(comps, lenient) is None,
    decreases comps.len(),
{
    if comps.len() > 0 {
        let rest = comps.drop_first();
        assert forall|i: int| 0 <= i < rest.len() implies is_excused(#[trigger] rest[i], lenient)
            || component_ok(nfc(rest[i])) by {
            assert(rest[i] == comps[i + 1]);
        }
        lemma_none_refused(rest, lenient);
    }
}

/// A component that is refused is one of the components, is not excused, and
/// is not acceptable in normal form; every component before it is excused or
/// acceptable.
pub proof fn lemma_first_refused_is_first(comps: Seq<Seq<char>>, lenient: bool)
    requires
        first_refused(comps, lenient) is Some,
    ensures
        exists|i: int|
            {
                &&& 0 <= i < comps.len()
                &&& first_refused(comps, lenient) == Some(#[trigger] comps[i])
                &&& !is_excused(comps[i], lenient)
                &&& !component_ok(nfc(comps[i]))
                &&& forall|j: int|
                    0 <= j < i ==> is_excused(#[trigger] comps[j], lenient) || component_ok(
                        nfc(comps[j]),
                    )
            },
    decreases comps.len(),
{
    if is_excused(comps[0], lenient) || component_ok(nfc(comps[0])) {
        let rest = comps.drop_first();
        lemma_first_refused_is_first(rest, lenient);
        let k = choose|k: int|
            {
                &&& 0 <= k < rest.len()
                &&& first_refused(rest, lenient) == Some(#[trigger] rest[k])
                &&& !is_excused(rest[k], lenient)
                &&& !component_ok(nfc(rest[k]))
                &&& forall|j: int|
                    0 <= j < k ==> is_excused(#[trigger] rest[j], lenient) || component_ok(
                        nfc(rest[j]),
                    )
            };
        assert(rest[k] == comps[k + 1]);
        assert forall|j: int| 0 <= j < k + 1 implies is_excused(#[trigger] comps[j], lenient)
            || component_ok(nfc(comps[j])) by {
            if j > 0 {
                assert(comps[j] == rest[j - 1]);
            }
        }
    } else {
        assert(first_refused(comps, lenient) == Some(comps[0]));
    }
}

/// Every template without fault is accepted, and comes back as it was written
/// but for the white space around it: a template that is not empty once
/// trimmed, does not start with `~`, is not absolute, has no component `.` or
/// `..`, and whose components without placeholder are acceptable in normal
/// form.
pub proof fn lemma_faultless_is_accepted(s: Seq<char>)
    requires
        trimmed(s).len() > 0,
        trimmed(s)[0] != '~',
        !is_absolute(trimmed(s)),
        !has_navigation(components(trimmed(s))),
        forall|i: int|
            0 <= i < components(trimmed(s)).len() ==> holds_placeholder(
                #[trigger] components(trimmed(s))[i],
            ) || component_ok(nfc(components(trimmed(s))[i])),
    ensures
        structural_check(s) == Ok::<Seq<char>, PathFault>(trimmed(s)),
{
    lemma_none_refused(components(trimmed(s)), true);
}

/// A template with a component `..` is never accepted. Unless an earlier rule
/// speaks first (the template starts with `~`, or is absolute), the error is
/// `RelativeNavigationNotAllowed`.
pub proof fn lemma_parent_component_is_refused(s: Seq<char>)
    requires
        components(trimmed(s)).contains(seq!['.', '.']),
    ensures
        structural_check(s) is Err,
        trimmed(s)[0] != '~' && !is_absolute(trimmed(s)) ==> structural_check(s) == Err::<
            Seq<char>,
            PathFault,
        >(PathFault::RelativeNavigationNotAllowed),
{
    let comps = components(trimmed(s));
    let i = choose|i: int| 0 <= i < comps.len() && comps[i] == seq!['.', '.'];
    assert(is_navigation(comps[i]));
}

/// An absolute template is refused as `AbsolutePathNotAllowed`, whatever
/// follows its anchor and whatever white space surrounds it.
pub proof fn lemma_absolute_is_refused(s: Seq<char>)
    requires
        is_absolute(trimmed(s)),
    ensures
        structural_check(s) == Err::<Seq<char>, PathFault>(PathFault::AbsolutePathNotAllowed),
{
}

/// A run ends within the text, holds no separator, and is closed by a
/// separator or by the end of the text.
pub proof fn lemma_run_is_maximal(s: Seq<char>)
    ensures
        run_len(s) <= s.len(),
        forall|j: int| 0 <= j < run_len(s) ==> !is_separator(#[trigger] s[j]),
        run_len(s) == s.len() || is_separator(s[run_len(s) as int]),
    decreases s.len(),
{
    if s.len() > 0 && !is_separator(s[0]) {
        let rest = s.drop_first();
        lemma_run_is_maximal(rest);
        assert forall|j: int| 0 <= j < run_len(s) implies !is_separator(#[trigger] s[j]) by {
            if j > 0 {
                assert(s[j] == rest[j - 1]);
            }
        }
        if run_len(s) < s.len() {
            assert(s[run_len(s) as int] == rest[run_len(rest) as int]);
        }
    }
}

/// Whether `c` is a name: a non-empty text without separator.
pub open spec fn is_name(c: Seq<char>) -> bool {
    c.len() > 0 && forall|j: int| 0 <= j < c.len() ==> !is_separator(#[trigger] c[j])
}

/// Every component is a name: it is not empty and holds no separator.
pub proof fn lemma_components_are_names(s: Seq<char>)
    ensures
        forall|i: int| 0 <= i < components(s).len() ==> is_name(#[trigger] components(s)[i]),
    decreases s.len(),
{
    let k = run_len(s) as int;
    lemma_run_is_maximal(s);
    if s.len() == 0 {
    } else if k >= s.len() {
        assert(is_name(s));
    } else if k == 0 {
        lemma_components_are_names(s.skip(1));
    } else {
        let head = s.take(k);
        let rest = s.skip(k + 1);
        lemma_components_are_names(rest);
        assert(is_name(head)) by {
            assert forall|j: int| 0 <= j < head.len() implies !is_separator(#[trigger] head[j]) by {
                assert(head[j] == s[j]);
            }
        }
        assert forall|i: int| 0 <= i < components(s).len() implies is_name(
            #[trigger] components(s)[i],
        ) by {
            if i > 0 {
                assert(components(s)[i] == components(rest)[i - 1]);
            }
        }
    }
}

/// A separator splits a path cleanly: the components of `a/b` are those of `a`
/// followed by those of `b`.
pub proof fn lemma_components_around_separator(a: Seq<char>, b: Seq<char>)
    ensures
        components(a + seq!['/'] + b) == components(a) + components(b),
    decreases a.len(),
{
    let s = a + seq!['/'] + b;
    let k = run_len(a) as int;
    lemma_run_is_maximal(a);
    assert forall|j: int| 0 <= j < k implies !is_separator(#[trigger] s[j]) by {
        assert(s[j] == a[j]);
    }
    if k < a.len() {
        assert(s[k] == a[k]);
    } else {
        assert(s[k] == '/');
    }
    lemma_run_len(s, k);
    if a.len() == 0 {
        assert(s.skip(1) == b);
        assert(components(a) + components(b) == components(b));
    } else if k >= a.len() {
        assert(s.take(k) == a);
        assert(s.skip(k + 1) == b);
    } else {
        assert(s.skip(k + 1) == a.skip(k + 1) + seq!['/'] + b);
        lemma_components_around_separator(a.skip(k + 1), b);
        if k > 0 {
            assert(s.take(k) == a.take(k));
            assert(seq![a.take(k)] + (components(a.skip(k + 1)) + components(b)) == (seq![
                a.take(k),
            ] + components(a.skip(k + 1))) + components(b));
        }
    }
}

/// A path that is set below a base stays below it: unless `rel` is rooted, the
/// components of the joined path are those of `base` followed by those of
/// `rel`.
pub proof fn lemma_join_keeps_base(base: Seq<char>, rel: Seq<char>)
    requires
        !is_rooted(rel),
    ensures
        components(join(base, rel)) == components(base) + components(rel),
{
    if base.len() == 0 {
        assert(base + rel == rel);
        assert(components(base) + components(rel) == components(rel));
    } else if is_separator(base.last()) {
        let front = base.drop_last();
        let nothing = Seq::<char>::empty();
        assert(base == front + seq!['/'] + nothing);
        assert(base + rel == front + seq!['/'] + rel);
        lemma_components_around_separator(front, nothing);
        lemma_components_around_separator(front, rel);
        assert(components(front) + components(nothing) == components(front));
    } else {
        lemma_components_around_separator(base, rel);
    }
}

/// What validation accepts is safe to set below any base: the accepted path is
/// not rooted and none of its components is `.` or `..`, so the joined path
/// has the components of the base, then those of the accepted path, and
/// nothing that leads back up.
pub proof fn lemma_accepted_path_stays_below(s: Seq<char>, lenient: bool, base: Seq<char>)
    requires
        path_check(s, lenient) is Ok,
    ensures
        ({
            let rel = path_check(s, lenient)->Ok_0;
            &&& !is_absolute(rel)
            &&& !has_navigation(components(rel))
            &&& components(join(base, rel)) == components(base) + components(rel)
        }),
{
    lemma_join_keeps_base(base, trimmed(s));
}

/// Where no component is refused, every component is excused or acceptable in
/// normal form.
pub proof fn lemma_all_pass(comps: Seq<Seq<char>>, lenient: bool)
    requires
        first_refused(comps, lenient) is None,
    ensures
        forall|i: int|
            0 <= i < comps.len() ==> is_excused(#[trigger] comps[i], lenient) || component_ok(
                nfc(comps[i]),
            ),
    decreases comps.len(),
{
    if comps.len() > 0 {
        let rest = comps.drop_first();
        lemma_all_pass(rest, lenient);
        assert forall|i: int| 0 <= i < comps.len() implies is_excused(
            #[trigger] comps[i],
            lenient,
        ) || component_ok(nfc(comps[i])) by {
            if i > 0 {
                assert(comps[i] == rest[i - 1]);
            }
        }
    }
}

/// A filled path that is accepted holds acceptable components only: each of
/// its components passes the component rules in normal form, whether or not
/// it holds a brace.
pub proof fn lemma_filled_path_holds_acceptable_components(s: Seq<char>)
    requires
        filled_check(s) is Ok,
    ensures
        forall|i: int|
            0 <= i < components(filled_check(s)->Ok_0).len() ==> component_ok(
                nfc(#[trigger] components(filled_check(s)->Ok_0)[i]),
            ),
{
    lemma_all_pass(components(trimmed(s)), false);
}

/// A name that stands alone in a path is one of its components: a non-empty
/// text without separator, with nothing or a separator before it and nothing
/// or a separator after it.
pub proof fn lemma_standalone_is_component(before: Seq<char>, name: Seq<char>, after: Seq<char>)
    requires
        is_name(name),
        before.len() == 0 || is_separator(before.last()),
        after.len() == 0 || is_separator(after[0]),
    ensures
        components(before + name + after).contains(name),
{
    let tail = name + after;
    lemma_run_len(name, name.len() as int);
    assert(components(name) == seq![name]);
    assert(components(name)[0] == name);
    if after.len() == 0 {
        assert(tail == name);
    } else {
        let rest = after.skip(1);
        assert(after == seq!['/'] + rest);
        assert(tail == name + seq!['/'] + rest);
        lemma_components_around_separator(name, rest);
        assert((components(name) + components(rest))[0] == name);
    }
    assert(components(tail).contains(name));
    let at = choose|i: int| 0 <= i < components(tail).len() && components(tail)[i] == name;
    if before.len() == 0 {
        assert(before + name + after == tail);
    } else {
        let front = before.drop_last();
        assert(before == front + seq!['/']);
        assert(before + name + after == front + seq!['/'] + tail);
        lemma_components_around_separator(front, tail);
        assert((components(front) + components(tail))[components(front).len() + at] == name);
    }
}

/// A template in which `..` stands alone is never accepted, wherever the `..`
/// stands. Unless an earlier rule speaks first (the template starts with `~`,
/// or is absolute), the error is `RelativeNavigationNotAllowed`.
pub proof fn lemma_parent_step_is_refused(s: Seq<char>, before: Seq<char>, after: Seq<char>)
    requires
        trimmed(s) == before + seq!['.', '.'] + after,
        before.len() == 0 || is_separator(before.last()),
        after.len() == 0 || is_separator(after[0]),
    ensures
        structural_check(s) is Err,
        trimmed(s)[0] != '~' && !is_absolute(trimmed(s)) ==> structural_check(s) == Err::<
            Seq<char>,
            PathFault,
        >(PathFault::RelativeNavigationNotAllowed),
{
    lemma_standalone_is_component(before, seq!['.', '.'], after);
    lemma_parent_component_is_refused(s);
}

/// Validation is stable: a template that was accepted is accepted again, and
/// comes back unchanged.
pub proof fn lemma_accepted_is_stable(s: Seq<char>)
    requires
        structural_check(s) is Ok,
    ensures
        structural_check(structural_check(s)->Ok_0) == structural_check(s),
{
    lemma_trimmed_is_stable(s);
}

} // verus!
