//! Route path patterns and the matching algorithm.
//!
//! A template is parsed once, at construction: if it holds the parameter
//! marker `:` anywhere it becomes a `Parametric` pattern (its `/`-separated
//! segments, kept verbatim), otherwise a `Static` pattern (the template
//! unmodified). A `Static` pattern admits exactly its template; a
//! `Parametric` pattern admits any candidate with the same number of
//! segments whose literal segments agree, and captures the candidate
//! segments standing at the parameter slots.

use crate::parameters::{map_of_pairs, RouteParameters};
use crate::segments::{seg_views, split_chars, split_path, str_eq};
use vstd::prelude::*;

verus! {

/// A parsed route template.
#[derive(Debug)]
pub enum Path {
    /// The full exact path to match, byte for byte.
    Static(String),
    /// The template split on `/`; segments beginning with `:` are parameter
    /// slots, all others are literals.
    Parametric(Vec<String>),
}

/// Whether a template holds the parameter marker anywhere.
pub open spec fn has_marker(t: Seq<char>) -> bool {
    exists|i: int| 0 <= i < t.len() && t[i] == ':'
}

/// Whether a template segment is a parameter slot.
pub open spec fn seg_is_param(seg: Seq<char>) -> bool {
    seg.len() > 0 && seg[0] == ':'
}

/// The name of a parameter slot: the text following the marker.
pub open spec fn param_name(seg: Seq<char>) -> Seq<char> {
    seg.subrange(1, seg.len() as int)
}

/// Whether a pattern is the one that parsing the given template produces.
pub open spec fn is_pattern_for(p: Path, t: Seq<char>) -> bool {
    match p {
        Path::Static(s) => !has_marker(t) && s@ == t,
        Path::Parametric(segs) => has_marker(t) && seg_views(segs@) == split_chars(t, '/'),
    }
}

/// Lockstep agreement of template segments and candidate segments: equal
/// counts, and every literal segment equal to its counterpart.
pub open spec fn segs_match(tsegs: Seq<Seq<char>>, csegs: Seq<Seq<char>>) -> bool {
    &&& tsegs.len() == csegs.len()
    &&& forall|i: int| 0 <= i < tsegs.len() && !seg_is_param(tsegs[i]) ==> tsegs[i] == csegs[i]
}

/// The parameters captured by walking the two segment lists in lockstep:
/// each parameter slot records the candidate segment at its position, a
/// later slot of the same name overriding an earlier one.
pub open spec fn captures(tsegs: Seq<Seq<char>>, csegs: Seq<Seq<char>>) -> Map<Seq<char>, Seq<char>>
    decreases tsegs.len(),
{
    if tsegs.len() == 0 {
        Map::empty()
    } else {
        let m = captures(tsegs.drop_last(), csegs.drop_last());
        if seg_is_param(tsegs.last()) {
            m.insert(param_name(tsegs.last()), csegs.last())
        } else {
            m
        }
    }
}

/// Whether a pattern admits a candidate path.
pub open spec fn pattern_matches(p: Path, c: Seq<char>) -> bool {
    match p {
        Path::Static(s) => s@ == c,
        Path::Parametric(segs) => segs_match(seg_views(segs@), split_chars(c, '/')),
    }
}

/// The parameters a pattern captures from a candidate path.
pub open spec fn pattern_params(p: Path, c: Seq<char>) -> Map<Seq<char>, Seq<char>> {
    match p {
        Path::Static(s) => Map::empty(),
        Path::Parametric(segs) => captures(seg_views(segs@), split_chars(c, '/')),
    }
}

/// Whether a path template holds the parameter marker `:` anywhere, which is
/// what decides the pattern variant at construction.
pub fn is_parametric_path(path: &str) -> (r: bool)
    ensures
        r == has_marker(path@),
{
    let n = path.unicode_len();
    let mut i: usize = 0;
    while i < n
        invariant
            i <= n,
            n == path@.len(),
            forall|j: int| 0 <= j < i ==> path@[j] != ':',
        decreases n - i,
    {
        if path.get_char(i) == ':' {
            return true;
        }
        i = i + 1;
    }
    false
}

impl Path {
    /// Parses a route template, choosing the variant from the presence of
    /// the parameter marker.
    pub fn new(path: &str) -> (r: Path)
        ensures
            is_pattern_for(r, path@),
    {
        if is_parametric_path(path) {
            Path::Parametric(split_path(path))
        } else {
            Path::Static(String::from_str(path))
        }
    }

    /// Attempts to match a candidate path, returning the captured parameters
    /// on success and `None` on any mismatch.
    pub fn matches(&self, other_path: &str) -> (r: Option<RouteParameters>)
        ensures
            r is Some <==> pattern_matches(*self, other_path@),
            r is Some ==> r->0@ == pattern_params(*self, other_path@),
    {
        match self {
            Path::Static(me) => {
                if str_eq(me.as_str(), other_path) {
                    Some(RouteParameters::none())
                } else {
                    None
                }
            },
            Path::Parametric(tsegs) => {
                let csegs = split_path(other_path);
                let ghost tv = seg_views(tsegs@);
                let ghost cv = split_chars(other_path@, '/');
                let tn = tsegs.len();
                if csegs.len() != tn {
                    return None;
                }
                let mut raw: Vec<(String, String)> = Vec::new();
                let mut i: usize = 0;
                while i < tn
                    invariant
                        *self == Path::Parametric(*tsegs),
                        i <= tn,
                        tn == tsegs@.len(),
                        tn == csegs@.len(),
                        tv == seg_views(tsegs@),
                        cv == seg_views(csegs@),
                        cv == split_chars(other_path@, '/'),
                        map_of_pairs(raw@) == captures(tv.take(i as int), cv.take(i as int)),
                        forall|j: int| 0 <= j < i && !seg_is_param(tv[j]) ==> tv[j] == cv[j],
                    decreases tn - i,
                {
                    proof {
                        assert(tv.take(i + 1).drop_last() =~= tv.take(i as int));
                        assert(cv.take(i + 1).drop_last() =~= cv.take(i as int));
                    }
                    let seg = &tsegs[i];
                    let seg_len = seg.as_str().unicode_len();
                    if seg_len > 0 && seg.as_str().get_char(0) == ':' {
                        let name = String::from_str(seg.as_str().substring_char(1, seg_len));
                        let value = csegs[i].clone();
                        let ghost old_raw = raw@;
                        raw.push((name, value));
                        proof {
                            assert(raw@.drop_last() =~= old_raw);
                            assert(name@ == param_name(tv[i as int]));
                        }
                    } else {
                        let candidate = &csegs[i];
                        if !str_eq(seg.as_str(), candidate.as_str()) {
                            proof {
                                assert(!seg_is_param(tv[i as int]) && tv[i as int] != cv[i as int]);
                                assert(!segs_match(tv, cv));
                            }
                            return None;
                        }
                    }
                    i = i + 1;
                }
                proof {
                    assert(tv.take(tn as int) =~= tv);
                    assert(cv.take(tn as int) =~= cv);
                }
                Some(RouteParameters::new(raw))
            },
        }
    }
}

impl PartialEq for Path {
    /// Two patterns are equal when they are the same variant with the same
    /// text: static patterns compare their templates, parametric patterns
    /// their segment lists.
    fn eq(&self, other: &Self) -> (r: bool) {
        match (self, other) {
            (Path::Static(me), Path::Static(them)) => str_eq(me.as_str(), them.as_str()),
            (Path::Parametric(me), Path::Parametric(them)) => {
                let n = me.len();
                if them.len() != n {
                    proof {
                        assert(seg_views(me@).len() == me@.len());
                        assert(seg_views(them@).len() == them@.len());
                    }
                    return false;
                }
                let mut i: usize = 0;
                while i < n
                    invariant
                        *self == Path::Parametric(*me),
                        *other == Path::Parametric(*them),
                        i <= n,
                        n == me@.len(),
                        n == them@.len(),
                        forall|j: int| 0 <= j < i ==> me@[j]@ == them@[j]@,
                    decreases n - i,
                {
                    if !str_eq(me[i].as_str(), them[i].as_str()) {
                        proof {
                            assert(seg_views(me@)[i as int] != seg_views(them@)[i as int]);
                            assert(seg_views(me@) != seg_views(them@));
                        }
                        return false;
                    }
                    i = i + 1;
                }
                proof {
                    assert(seg_views(me@) =~= seg_views(them@));
                }
                true
            },
            _ => false,
        }
    }
}

impl vstd::std_specs::cmp::PartialEqSpecImpl for Path {
    open spec fn obeys_eq_spec() -> bool {
        true
    }

    open spec fn eq_spec(&self, other: &Path) -> bool {
        match (*self, *other) {
            (Path::Static(me), Path::Static(them)) => me@ == them@,
            (Path::Parametric(me), Path::Parametric(them)) => seg_views(me@) == seg_views(them@),
            _ => false,
        }
    }
}

/// A static pattern admits exactly its own template, capturing nothing: a
/// candidate matches if and only if it equals the template, with no
/// normalization and no trailing-slash tolerance.
pub proof fn lemma_static_exact(p: Path, t: Seq<char>, c: Seq<char>)
    requires
        is_pattern_for(p, t),
        !has_marker(t),
    ensures
        pattern_matches(p, c) <==> c == t,
        pattern_params(p, c) == Map::<Seq<char>, Seq<char>>::empty(),
{
}

/// A parametric pattern admits only candidates with exactly as many
/// segments as the template: a parameter slot captures one segment, never
/// several and never none.
pub proof fn lemma_segment_count(p: Path, t: Seq<char>, c: Seq<char>)
    requires
        is_pattern_for(p, t),
        has_marker(t),
    ensures
        pattern_matches(p, c) ==> split_chars(c, '/').len() == split_chars(t, '/').len(),
        split_chars(c, '/').len() != split_chars(t, '/').len() ==> !pattern_matches(p, c),
{
}

/// A parameter slot whose name is not repeated by a later slot captures
/// exactly the candidate segment standing at its position.
proof fn lemma_captures_at(tsegs: Seq<Seq<char>>, csegs: Seq<Seq<char>>, i: int)
    requires
        tsegs.len() == csegs.len(),
        0 <= i < tsegs.len(),
        seg_is_param(tsegs[i]),
        forall|j: int|
            i < j < tsegs.len() && seg_is_param(tsegs[j]) ==> param_name(tsegs[j]) != param_name(
                tsegs[i],
            ),
    ensures
        captures(tsegs, csegs).contains_key(param_name(tsegs[i])),
        captures(tsegs, csegs)[param_name(tsegs[i])] == csegs[i],
    decreases tsegs.len(),
{
    if i < tsegs.len() - 1 {
        assert(tsegs.drop_last()[i] == tsegs[i]);
        lemma_captures_at(tsegs.drop_last(), csegs.drop_last(), i);
    }
}

/// A name is captured exactly when some parameter slot bears it.
proof fn lemma_captures_dom(tsegs: Seq<Seq<char>>, csegs: Seq<Seq<char>>, k: Seq<char>)
    requires
        tsegs.len() == csegs.len(),
    ensures
        captures(tsegs, csegs).contains_key(k) <==> exists|i: int|
            0 <= i < tsegs.len() && seg_is_param(tsegs[i]) && param_name(tsegs[i]) == k,
    decreases tsegs.len(),
{
    if tsegs.len() > 0 {
        lemma_captures_dom(tsegs.drop_last(), csegs.drop_last(), k);
        let last = tsegs.len() - 1;
        if seg_is_param(tsegs[last]) && param_name(tsegs[last]) == k {
            assert(captures(tsegs, csegs).contains_key(k));
        } else if captures(tsegs, csegs).contains_key(k) {
            let i = choose|i: int|
                0 <= i < tsegs.drop_last().len() && seg_is_param(tsegs.drop_last()[i])
                    && param_name(tsegs.drop_last()[i]) == k;
            assert(seg_is_param(tsegs[i]) && param_name(tsegs[i]) == k);
        } else if exists|i: int|
            0 <= i < tsegs.len() && seg_is_param(tsegs[i]) && param_name(tsegs[i]) == k {
            let i = choose|i: int|
                0 <= i < tsegs.len() && seg_is_param(tsegs[i]) && param_name(tsegs[i]) == k;
            assert(seg_is_param(tsegs.drop_last()[i]) && param_name(tsegs.drop_last()[i]) == k);
        }
    }
}

/// Parameter capture is positional and name-addressed: when a parametric
/// pattern admits a candidate, each parameter slot whose name no later slot
/// repeats maps, under its name alone, to the candidate segment at its own
/// position, however many other parameters the template declares.
pub proof fn lemma_parametric_capture(p: Path, t: Seq<char>, c: Seq<char>, i: int)
    requires
        is_pattern_for(p, t),
        has_marker(t),
        pattern_matches(p, c),
        0 <= i < split_chars(t, '/').len(),
        seg_is_param(split_chars(t, '/')[i]),
        forall|j: int|
            i < j < split_chars(t, '/').len() && seg_is_param(split_chars(t, '/')[j])
                ==> param_name(split_chars(t, '/')[j]) != param_name(split_chars(t, '/')[i]),
    ensures
        pattern_params(p, c).contains_key(param_name(split_chars(t, '/')[i])),
        pattern_params(p, c)[param_name(split_chars(t, '/')[i])] == split_chars(c, '/')[i],
{
    lemma_captures_at(split_chars(t, '/'), split_chars(c, '/'), i);
}

/// A pattern captures only the names its parameter slots declare; in
/// particular a parametric pattern without parameter slots, like a static
/// one, captures nothing.
pub proof fn lemma_captured_names(p: Path, t: Seq<char>, c: Seq<char>, k: Seq<char>)
    requires
        is_pattern_for(p, t),
        pattern_matches(p, c),
    ensures
        pattern_params(p, c).contains_key(k) <==> (has_marker(t) && exists|i: int|
            0 <= i < split_chars(t, '/').len() && seg_is_param(split_chars(t, '/')[i])
                && param_name(split_chars(t, '/')[i]) == k),
{
    if has_marker(t) {
        lemma_captures_dom(split_chars(t, '/'), split_chars(c, '/'), k);
    }
}

} // verus!
