//! What holds of filling templates.
//!
//! The laws here are stated for templates that are made of well-formed
//! segments: text without an opening brace, and placeholders whose names hold
//! no brace. For these, filling a field fills every placeholder of its name,
//! and the order of the fields is free.

use crate::template::{lemma_name_len, marker_names, placeholder, replace_all, substitute};
use vstd::prelude::*;

verus! {

/// Whether `pat` stands somewhere in `s`.
pub open spec fn occurs_in(s: Seq<char>, pat: Seq<char>) -> bool {
    exists|i: int| 0 <= i && i + pat.len() <= s.len() && #[trigger] s.subrange(i, i + pat.len())
        == pat
}

/// Replacing what does not occur changes nothing: a field whose placeholder is
/// not in the template leaves the template as it is.
pub proof fn lemma_replace_absent(s: Seq<char>, pat: Seq<char>, to: Seq<char>)
    requires
        !occurs_in(s, pat),
    ensures
        replace_all(s, pat, to) == s,
    decreases s.len(),
{
    if pat.len() > 0 && s.len() >= pat.len() {
        assert(s.take(pat.len() as int) == s.subrange(0int, 0int + pat.len()));
        let rest = s.skip(1);
        assert forall|i: int| 0 <= i && i + pat.len() <= rest.len() implies #[trigger] rest.subrange(
            i,
            i + pat.len(),
        ) != pat by {
            assert(rest.subrange(i, i + pat.len()) == s.subrange(i + 1, i + 1 + pat.len()));
        }
        lemma_replace_absent(rest, pat, to);
        assert(seq![s[0]] + rest == s);
    }
}

/// A template stays as it is when no field is given, and a field whose
/// placeholder does not occur can be left out.
pub proof fn lemma_unused_field_is_inert(
    template: Seq<char>,
    field: (Seq<char>, Seq<char>),
    others: Seq<(Seq<char>, Seq<char>)>,
)
    requires
        !occurs_in(template, placeholder(field.0)),
    ensures
        substitute(template, Seq::empty()) == template,
        substitute(template, seq![field] + others) == substitute(template, others),
{
    lemma_replace_absent(template, placeholder(field.0), field.1);
    assert((seq![field] + others).drop_first() == others);
}

/// Whether `s` holds no opening brace, so that no placeholder starts in it.
pub open spec fn is_plain(s: Seq<char>) -> bool {
    forall|i: int| 0 <= i < s.len() ==> s[i] != '{'
}

/// Whether `s` holds no brace at all, as the name of a placeholder should.
pub open spec fn is_brace_free(s: Seq<char>) -> bool {
    forall|i: int| 0 <= i < s.len() ==> s[i] != '{' && s[i] != '}'
}

/// Text without an opening brace is kept as it is, and what follows it is
/// searched as if it stood alone.
pub proof fn lemma_replace_keeps_plain_text(
    plain: Seq<char>,
    rest: Seq<char>,
    name: Seq<char>,
    to: Seq<char>,
)
    requires
        is_plain(plain),
    ensures
        replace_all(plain + rest, placeholder(name), to) == plain + replace_all(
            rest,
            placeholder(name),
            to,
        ),
    decreases plain.len(),
{
    let pat = placeholder(name);
    let s = plain + rest;
    if plain.len() == 0 {
        assert(s == rest);
        assert(plain + replace_all(rest, pat, to) == replace_all(rest, pat, to));
    } else {
        assert(pat[0] == '{');
        assert(s[0] == plain[0]);
        if s.len() >= pat.len() {
            assert(s.take(pat.len() as int)[0] != pat[0]);
            let tail = plain.skip(1);
            assert(s.skip(1) == tail + rest);
            lemma_replace_keeps_plain_text(tail, rest, name, to);
            assert(seq![s[0]] + (tail + replace_all(rest, pat, to)) == plain + replace_all(
                rest,
                pat,
                to,
            ));
        }
    }
}

/// A placeholder at the start of a text is replaced, and what follows it is
/// searched as if it stood alone.
pub proof fn lemma_replace_fills_placeholder(name: Seq<char>, rest: Seq<char>, to: Seq<char>)
    ensures
        replace_all(placeholder(name) + rest, placeholder(name), to) == to + replace_all(
            rest,
            placeholder(name),
            to,
        ),
{
    let pat = placeholder(name);
    let s = pat + rest;
    assert(s.take(pat.len() as int) == pat);
    assert(s.skip(pat.len() as int) == rest);
}

/// The placeholder of one name is not taken for that of another: it is kept,
/// and what follows it is searched as if it stood alone.
pub proof fn lemma_replace_skips_other_placeholder(
    other: Seq<char>,
    rest: Seq<char>,
    name: Seq<char>,
    to: Seq<char>,
)
    requires
        is_brace_free(other),
        is_brace_free(name),
        other != name,
    ensures
        replace_all(placeholder(other) + rest, placeholder(name), to) == placeholder(other)
            + replace_all(rest, placeholder(name), to),
{
    let kept = placeholder(other);
    let pat = placeholder(name);
    let s = kept + rest;
    if s.len() >= pat.len() {
        if s.take(pat.len() as int) == pat {
            if name.len() < other.len() {
                let at = name.len() as int + 1;
                assert(pat[at] == '}');
                assert(s.take(pat.len() as int)[at] == other[at - 1]);
            } else if name.len() > other.len() {
                let at = other.len() as int + 1;
                assert(s.take(pat.len() as int)[at] == '}');
                assert(pat[at] == name[at - 1]);
            } else {
                assert forall|i: int| 0 <= i < name.len() implies other[i] == name[i] by {
                    assert(s.take(pat.len() as int)[i + 1] == other[i]);
                    assert(pat[i + 1] == name[i]);
                }
                assert(other =~= name);
            }
        }
        let inner = other + seq!['}'];
        assert(s.skip(1) == inner + rest);
        lemma_replace_keeps_plain_text(inner, rest, name, to);
        assert(seq![s[0]] + (inner + replace_all(rest, pat, to)) == kept + replace_all(
            rest,
            pat,
            to,
        ));
    }
}

/// A template with two placeholders of different names is filled the same way
/// whichever field comes first, as long as the text around the placeholders
/// and the values hold no opening brace and the names hold no brace.
pub proof fn lemma_two_fields_in_either_order(
    a: Seq<char>,
    x: Seq<char>,
    b: Seq<char>,
    y: Seq<char>,
    c: Seq<char>,
    x_value: Seq<char>,
    y_value: Seq<char>,
)
    requires
        is_plain(a),
        is_plain(b),
        is_plain(c),
        is_plain(x_value),
        is_plain(y_value),
        is_brace_free(x),
        is_brace_free(y),
        x != y,
    ensures
        substitute(
            a + placeholder(x) + b + placeholder(y) + c,
            seq![(x, x_value), (y, y_value)],
        ) == a + x_value + b + y_value + c,
        substitute(
            a + placeholder(x) + b + placeholder(y) + c,
            seq![(y, y_value), (x, x_value)],
        ) == a + x_value + b + y_value + c,
{
    let px = placeholder(x);
    let py = placeholder(y);
    let t = a + px + b + py + c;
    let nothing = Seq::<char>::empty();
    let filled = a + x_value + b + y_value + c;
    assert(c + nothing == c);

    // First the field for `x`, then the field for `y`.
    let x_first = a + x_value + b + py + c;
    assert(replace_all(t, px, x_value) == x_first) by {
        assert(t == a + (px + (b + (py + c))));
        lemma_replace_keeps_plain_text(a, px + (b + (py + c)), x, x_value);
        lemma_replace_fills_placeholder(x, b + (py + c), x_value);
        lemma_replace_keeps_plain_text(b, py + c, x, x_value);
        lemma_replace_skips_other_placeholder(y, c, x, x_value);
        lemma_replace_keeps_plain_text(c, nothing, x, x_value);
        assert(a + (x_value + (b + (py + c))) == x_first);
    }
    assert(replace_all(x_first, py, y_value) == filled) by {
        let front = a + x_value + b;
        assert(x_first == front + (py + c));
        lemma_replace_keeps_plain_text(front, py + c, y, y_value);
        lemma_replace_fills_placeholder(y, c, y_value);
        lemma_replace_keeps_plain_text(c, nothing, y, y_value);
        assert(front + (y_value + c) == filled);
    }

    // First the field for `y`, then the field for `x`.
    let y_first = a + px + b + y_value + c;
    assert(replace_all(t, py, y_value) == y_first) by {
        assert(t == a + (px + (b + (py + c))));
        lemma_replace_keeps_plain_text(a, px + (b + (py + c)), y, y_value);
        lemma_replace_skips_other_placeholder(x, b + (py + c), y, y_value);
        lemma_replace_keeps_plain_text(b, py + c, y, y_value);
        lemma_replace_fills_placeholder(y, c, y_value);
        lemma_replace_keeps_plain_text(c, nothing, y, y_value);
        assert(a + (px + (b + (y_value + c))) == y_first);
    }
    assert(replace_all(y_first, px, x_value) == filled) by {
        let back = b + y_value + c;
        assert(y_first == a + (px + back));
        lemma_replace_keeps_plain_text(a, px + back, x, x_value);
        lemma_replace_fills_placeholder(x, back, x_value);
        lemma_replace_keeps_plain_text(back, nothing, x, x_value);
        assert(back + nothing == back);
        assert(a + (x_value + back) == filled);
    }

    let xy = seq![(x, x_value), (y, y_value)];
    let yx = seq![(y, y_value), (x, x_value)];
    assert(xy.drop_first() == seq![(y, y_value)]);
    assert(yx.drop_first() == seq![(x, x_value)]);
    assert(seq![(y, y_value)].drop_first() == Seq::<(Seq<char>, Seq<char>)>::empty());
    assert(seq![(x, x_value)].drop_first() == Seq::<(Seq<char>, Seq<char>)>::empty());
    assert(substitute(filled, Seq::empty()) == filled);
    assert(substitute(x_first, seq![(y, y_value)]) == filled);
    assert(substitute(y_first, seq![(x, x_value)]) == filled);
}

/// A piece of a template: text to keep, or a placeholder to fill.
pub ghost enum Segment {
    /// Text that stands for itself.
    Text(Seq<char>),
    /// The placeholder for a name.
    Hole(Seq<char>),
}

/// The text that a segment stands for in a template.
pub open spec fn segment_text(segment: Segment) -> Seq<char> {
    match segment {
        Segment::Text(t) => t,
        Segment::Hole(name) => placeholder(name),
    }
}

/// The template that the segments spell out.
pub open spec fn written(segments: Seq<Segment>) -> Seq<char>
    decreases segments.len(),
{
    if segments.len() == 0 {
        Seq::empty()
    } else {
        segment_text(segments[0]) + written(segments.drop_first())
    }
}

/// Whether a segment is well formed: text without an opening brace, or a
/// placeholder whose name holds no brace.
pub open spec fn is_well_formed_segment(segment: Segment) -> bool {
    match segment {
        Segment::Text(t) => is_plain(t),
        Segment::Hole(name) => is_brace_free(name),
    }
}

/// Whether every segment is well formed.
pub open spec fn is_well_formed(segments: Seq<Segment>) -> bool {
    forall|i: int| 0 <= i < segments.len() ==> is_well_formed_segment(#[trigger] segments[i])
}

/// Whether a field is well formed: its name holds no brace and its value no
/// opening brace.
pub open spec fn is_well_formed_field(field: (Seq<char>, Seq<char>)) -> bool {
    is_brace_free(field.0) && is_plain(field.1)
}

/// Whether every field is well formed.
pub open spec fn are_well_formed_fields(fields: Seq<(Seq<char>, Seq<char>)>) -> bool {
    forall|i: int| 0 <= i < fields.len() ==> is_well_formed_field(#[trigger] fields[i])
}

/// A segment with a field filled in: the placeholder of that name becomes the
/// value, everything else stays.
pub open spec fn fill_segment(segment: Segment, field: (Seq<char>, Seq<char>)) -> Segment {
    match segment {
        Segment::Hole(name) if name == field.0 => Segment::Text(field.1),
        _ => segment,
    }
}

/// The segments with a field filled in, in every place where its placeholder
/// stands.
pub open spec fn fill(segments: Seq<Segment>, field: (Seq<char>, Seq<char>)) -> Seq<Segment> {
    segments.map_values(|segment: Segment| fill_segment(segment, field))
}

/// The segments with the fields filled in, one field after the other.
pub open spec fn fill_all(segments: Seq<Segment>, fields: Seq<(Seq<char>, Seq<char>)>) -> Seq<
    Segment,
>
    decreases fields.len(),
{
    if fields.len() == 0 {
        segments
    } else {
        fill_all(fill(segments, fields[0]), fields.drop_first())
    }
}

/// Every occurrence of a placeholder is replaced, not only the first: in a
/// template of well-formed segments, replacing the placeholder of a name
/// fills every segment that is this placeholder and changes no other.
pub proof fn lemma_replace_fills_every_hole(segments: Seq<Segment>, field: (Seq<char>, Seq<char>))
    requires
        is_well_formed(segments),
        is_brace_free(field.0),
    ensures
        replace_all(written(segments), placeholder(field.0), field.1) == written(
            fill(segments, field),
        ),
    decreases segments.len(),
{
    let pat = placeholder(field.0);
    let filled = fill(segments, field);
    if segments.len() > 0 {
        let rest = segments.drop_first();
        assert(is_well_formed(rest)) by {
            assert forall|i: int| 0 <= i < rest.len() implies is_well_formed_segment(
                #[trigger] rest[i],
            ) by {
                assert(rest[i] == segments[i + 1]);
            }
        }
        lemma_replace_fills_every_hole(rest, field);
        assert(filled.drop_first() == fill(rest, field));
        assert(filled[0] == fill_segment(segments[0], field));
        assert(is_well_formed_segment(segments[0]));
        match segments[0] {
            Segment::Text(t) => {
                lemma_replace_keeps_plain_text(t, written(rest), field.0, field.1);
            },
            Segment::Hole(name) => {
                if name == field.0 {
                    lemma_replace_fills_placeholder(name, written(rest), field.1);
                } else {
                    lemma_replace_skips_other_placeholder(name, written(rest), field.0, field.1);
                }
            },
        }
    } else {
        assert(filled =~= segments);
    }
}

/// Filling a well-formed field leaves well-formed segments.
pub proof fn lemma_fill_keeps_well_formed(segments: Seq<Segment>, field: (Seq<char>, Seq<char>))
    requires
        is_well_formed(segments),
        is_plain(field.1),
    ensures
        is_well_formed(fill(segments, field)),
{
    let filled = fill(segments, field);
    assert forall|i: int| 0 <= i < filled.len() implies is_well_formed_segment(
        #[trigger] filled[i],
    ) by {
        assert(is_well_formed_segment(segments[i]));
    }
}

/// Filling a template is filling its segments: for well-formed segments and
/// well-formed fields, the filled template is what the filled segments spell
/// out, and these are well formed again.
pub proof fn lemma_substitute_fills_segments(
    segments: Seq<Segment>,
    fields: Seq<(Seq<char>, Seq<char>)>,
)
    requires
        is_well_formed(segments),
        are_well_formed_fields(fields),
    ensures
        substitute(written(segments), fields) == written(fill_all(segments, fields)),
        is_well_formed(fill_all(segments, fields)),
    decreases fields.len(),
{
    if fields.len() > 0 {
        let rest = fields.drop_first();
        assert(is_well_formed_field(fields[0]));
        assert(are_well_formed_fields(rest)) by {
            assert forall|i: int| 0 <= i < rest.len() implies is_well_formed_field(
                #[trigger] rest[i],
            ) by {
                assert(rest[i] == fields[i + 1]);
            }
        }
        lemma_replace_fills_every_hole(segments, fields[0]);
        lemma_fill_keeps_well_formed(segments, fields[0]);
        lemma_substitute_fills_segments(fill(segments, fields[0]), rest);
    }
}

/// Fields of different names do not get in each other's way: filling one and
/// then the other gives the same segments in either order.
pub proof fn lemma_fills_commute(
    segments: Seq<Segment>,
    f: (Seq<char>, Seq<char>),
    g: (Seq<char>, Seq<char>),
)
    requires
        f.0 != g.0,
    ensures
        fill(fill(segments, f), g) == fill(fill(segments, g), f),
{
    assert(fill(fill(segments, f), g) =~= fill(fill(segments, g), f));
}

/// Filling with two lists of fields in a row is filling with the one list
/// that holds both.
pub proof fn lemma_substitute_in_stages(
    template: Seq<char>,
    first: Seq<(Seq<char>, Seq<char>)>,
    then: Seq<(Seq<char>, Seq<char>)>,
)
    ensures
        substitute(template, first + then) == substitute(substitute(template, first), then),
    decreases first.len(),
{
    if first.len() == 0 {
        assert(first + then == then);
    } else {
        assert((first + then)[0] == first[0]);
        assert((first + then).drop_first() == first.drop_first() + then);
        lemma_substitute_in_stages(
            replace_all(template, placeholder(first[0].0), first[0].1),
            first.drop_first(),
            then,
        );
    }
}

/// The order of the fields does not matter: in a template of well-formed
/// segments, filled with well-formed fields, two neighbouring fields of
/// different names can change places, wherever in the list they stand. Any
/// order of fields with different names is reached by such exchanges.
pub proof fn lemma_field_order_is_free(
    segments: Seq<Segment>,
    before: Seq<(Seq<char>, Seq<char>)>,
    f: (Seq<char>, Seq<char>),
    g: (Seq<char>, Seq<char>),
    after: Seq<(Seq<char>, Seq<char>)>,
)
    requires
        is_well_formed(segments),
        are_well_formed_fields(before),
        is_well_formed_field(f),
        is_well_formed_field(g),
        f.0 != g.0,
    ensures
        substitute(written(segments), before + seq![f, g] + after) == substitute(
            written(segments),
            before + seq![g, f] + after,
        ),
{
    let t = written(segments);
    let reached = fill_all(segments, before);
    lemma_substitute_fills_segments(segments, before);
    lemma_substitute_in_stages(t, before + seq![f, g], after);
    lemma_substitute_in_stages(t, before + seq![g, f], after);
    lemma_substitute_in_stages(t, before, seq![f, g]);
    lemma_substitute_in_stages(t, before, seq![g, f]);
    assert(are_well_formed_fields(seq![f, g]));
    assert(are_well_formed_fields(seq![g, f]));
    lemma_substitute_fills_segments(reached, seq![f, g]);
    lemma_substitute_fills_segments(reached, seq![g, f]);
    assert(fill_all(reached, seq![f, g]) == fill(fill(reached, f), g)) by {
        assert(seq![f, g].drop_first() == seq![g]);
        assert(seq![g].drop_first() == Seq::<(Seq<char>, Seq<char>)>::empty());
        assert(fill_all(fill(reached, f), seq![g]) == fill_all(
            fill(fill(reached, f), g),
            Seq::empty(),
        ));
    }
    assert(fill_all(reached, seq![g, f]) == fill(fill(reached, g), f)) by {
        assert(seq![g, f].drop_first() == seq![f]);
        assert(seq![f].drop_first() == Seq::<(Seq<char>, Seq<char>)>::empty());
        assert(fill_all(fill(reached, g), seq![f]) == fill_all(
            fill(fill(reached, g), f),
            Seq::empty(),
        ));
    }
    lemma_fills_commute(reached, f, g);
}

/// The names of the placeholders among the segments, from left to right.
pub open spec fn hole_names(segments: Seq<Segment>) -> Seq<Seq<char>>
    decreases segments.len(),
{
    if segments.len() == 0 {
        Seq::empty()
    } else {
        match segments[0] {
            Segment::Text(_) => hole_names(segments.drop_first()),
            Segment::Hole(name) => seq![name] + hole_names(segments.drop_first()),
        }
    }
}

/// Text without an opening brace holds no placeholder.
pub proof fn lemma_plain_text_holds_no_marker(plain: Seq<char>, rest: Seq<char>)
    requires
        is_plain(plain),
    ensures
        marker_names(plain + rest) == marker_names(rest),
    decreases plain.len(),
{
    if plain.len() == 0 {
        assert(plain + rest == rest);
    } else {
        let s = plain + rest;
        assert(s[0] == plain[0]);
        assert(s.skip(1) == plain.skip(1) + rest);
        lemma_plain_text_holds_no_marker(plain.skip(1), rest);
    }
}

/// The names found in a template are the names of its placeholders: for
/// well-formed segments, reading the names off the text gives the names of
/// the placeholders among the segments.
pub proof fn lemma_marker_names_of_segments(segments: Seq<Segment>)
    requires
        is_well_formed(segments),
    ensures
        marker_names(written(segments)) == hole_names(segments),
    decreases segments.len(),
{
    if segments.len() > 0 {
        let rest = segments.drop_first();
        assert(is_well_formed(rest)) by {
            assert forall|i: int| 0 <= i < rest.len() implies is_well_formed_segment(
                #[trigger] rest[i],
            ) by {
                assert(rest[i] == segments[i + 1]);
            }
        }
        lemma_marker_names_of_segments(rest);
        assert(is_well_formed_segment(segments[0]));
        match segments[0] {
            Segment::Text(t) => {
                lemma_plain_text_holds_no_marker(t, written(rest));
            },
            Segment::Hole(name) => {
                let s = placeholder(name) + written(rest);
                let inner = s.skip(1);
                let k = name.len() as int;
                assert forall|j: int| 0 <= j < k implies inner[j] != '{' && inner[j] != '}' by {
                    assert(inner[j] == name[j]);
                }
                assert(inner[k] == '}');
                lemma_name_len(inner, k);
                assert(s[k + 1] == '}');
                assert(s.subrange(1, k + 1) == name);
                assert(s.skip(k + 2) == written(rest));
            },
        }
    }
}

} // verus!
