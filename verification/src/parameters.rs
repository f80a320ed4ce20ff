//! The parameters captured by a successful route match.
//!
//! A `RouteParameters` value is an immutable name-to-value mapping: each
//! parameter segment of a matched pattern contributes the candidate segment
//! it captured, keyed by the parameter's name.

use crate::segments::str_eq;
use vstd::pervasive::VecAdditionalExecFns;
use vstd::prelude::*;

verus! {

/// The mapping described by a list of (name, value) pairs, a later entry for
/// a name overriding an earlier one.
pub open spec fn map_of_pairs(ps: Seq<(String, String)>) -> Map<Seq<char>, Seq<char>>
    decreases ps.len(),
{
    if ps.len() == 0 {
        Map::empty()
    } else {
        map_of_pairs(ps.drop_last()).insert(ps.last().0@, ps.last().1@)
    }
}

/// Whether the names in a list of pairs are pairwise distinct.
pub open spec fn distinct_names(ps: Seq<(String, String)>) -> bool {
    forall|i: int, j: int| 0 <= i < j < ps.len() ==> ps[i].0@ != ps[j].0@
}

/// A name is in the mapping of a pair list exactly when some pair holds it.
pub proof fn lemma_map_of_pairs_contains(ps: Seq<(String, String)>, k: Seq<char>)
    ensures
        map_of_pairs(ps).contains_key(k) <==> exists|i: int| 0 <= i < ps.len() && ps[i].0@ == k,
    decreases ps.len(),
{
    if ps.len() > 0 {
        lemma_map_of_pairs_contains(ps.drop_last(), k);
        if ps.last().0@ == k {
            assert(ps[ps.len() - 1].0@ == k);
        } else if map_of_pairs(ps).contains_key(k) {
            let i = choose|i: int| 0 <= i < ps.drop_last().len() && ps.drop_last()[i].0@ == k;
            assert(ps[i].0@ == k);
        } else if exists|i: int| 0 <= i < ps.len() && ps[i].0@ == k {
            let i = choose|i: int| 0 <= i < ps.len() && ps[i].0@ == k;
            assert(ps.drop_last()[i].0@ == k);
        }
    }
}

/// With distinct names, each pair's name maps to that pair's value.
pub proof fn lemma_map_of_pairs_get(ps: Seq<(String, String)>, i: int)
    requires
        distinct_names(ps),
        0 <= i < ps.len(),
    ensures
        map_of_pairs(ps).contains_key(ps[i].0@),
        map_of_pairs(ps)[ps[i].0@] == ps[i].1@,
    decreases ps.len(),
{
    if i < ps.len() - 1 {
        assert(distinct_names(ps.drop_last())) by {
            assert(forall|x: int, y: int|
                0 <= x < y < ps.drop_last().len() ==> ps.drop_last()[x].0@ != ps.drop_last()[y].0@);
        }
        lemma_map_of_pairs_get(ps.drop_last(), i);
        assert(ps.drop_last()[i] == ps[i]);
        assert(ps.last().0@ != ps[i].0@);
    }
}

/// With distinct names, the mapping has exactly one entry per pair.
pub proof fn lemma_map_of_pairs_dom_len(ps: Seq<(String, String)>)
    requires
        distinct_names(ps),
    ensures
        map_of_pairs(ps).dom().finite(),
        map_of_pairs(ps).dom().len() == ps.len(),
    decreases ps.len(),
{
    if ps.len() > 0 {
        assert(distinct_names(ps.drop_last()));
        lemma_map_of_pairs_dom_len(ps.drop_last());
        lemma_map_of_pairs_contains(ps.drop_last(), ps.last().0@);
        assert(forall|i: int|
            0 <= i < ps.drop_last().len() ==> ps.drop_last()[i].0@ != ps.last().0@);
    }
}

/// An immutable bag of the parameter values captured by a route match,
/// addressable by parameter name.
pub struct RouteParameters {
    pairs: Vec<(String, String)>,
}

impl View for RouteParameters {
    type V = Map<Seq<char>, Seq<char>>;

    closed spec fn view(&self) -> Map<Seq<char>, Seq<char>> {
        map_of_pairs(self.pairs@)
    }
}

/// Replaces the value recorded for a name, or records the pair if the name
/// is new.
fn insert_pair(out: &mut Vec<(String, String)>, name: String, value: String)
    requires
        distinct_names(old(out)@),
    ensures
        distinct_names(final(out)@),
        map_of_pairs(final(out)@) == map_of_pairs(old(out)@).insert(name@, value@),
{
    let n = out.len();
    let mut i: usize = 0;
    while i < n
        invariant
            i <= n,
            n == out@.len(),
            distinct_names(out@),
            out@ == old(out)@,
            forall|j: int| 0 <= j < i ==> out@[j].0@ != name@,
        decreases n - i,
    {
        if str_eq(out[i].0.as_str(), name.as_str()) {
            proof {
                lemma_map_of_pairs_update(out@, i as int, name, value);
            }
            out.set(i, (name, value));
            return ;
        }
        i = i + 1;
    }
    out.push((name, value));
    proof {
        assert(out@.drop_last() =~= old(out)@);
    }
}

/// Overwriting the value of a pair whose name is already present has the
/// same effect on the mapping as inserting that name.
proof fn lemma_map_of_pairs_update(ps: Seq<(String, String)>, j: int, name: String, value: String)
    requires
        distinct_names(ps),
        0 <= j < ps.len(),
        ps[j].0@ == name@,
    ensures
        distinct_names(ps.update(j, (name, value))),
        map_of_pairs(ps.update(j, (name, value))) == map_of_pairs(ps).insert(name@, value@),
    decreases ps.len(),
{
    let updated = ps.update(j, (name, value));
    assert forall|x: int, y: int| 0 <= x < y < updated.len() implies updated[x].0@
        != updated[y].0@ by {
        assert(updated[x].0@ == ps[x].0@);
        assert(updated[y].0@ == ps[y].0@);
    }
    if j == ps.len() - 1 {
        assert(updated.drop_last() =~= ps.drop_last());
        assert(map_of_pairs(ps.update(j, (name, value))) =~= map_of_pairs(ps).insert(
            name@,
            value@,
        ));
    } else {
        assert(distinct_names(ps.drop_last()));
        lemma_map_of_pairs_update(ps.drop_last(), j, name, value);
        assert(updated.drop_last() =~= ps.drop_last().update(j, (name, value)));
        assert(updated.last() == ps.last());
        assert(ps.last().0@ != name@);
        assert(map_of_pairs(ps.update(j, (name, value))) =~= map_of_pairs(ps).insert(
            name@,
            value@,
        ));
    }
}

impl RouteParameters {
    #[verifier::type_invariant]
    spec fn wf(self) -> bool {
        distinct_names(self.pairs@)
    }

    /// The canonical empty instance, returned for static matches and for the
    /// fallback outcomes that capture nothing.
    pub fn none() -> (r: RouteParameters)
        ensures
            r@ == Map::<Seq<char>, Seq<char>>::empty(),
    {
        RouteParameters::with_capacity(0)
    }

    /// An empty instance whose storage is sized for the given number of
    /// parameters.
    pub fn with_capacity(capacity: usize) -> (r: RouteParameters)
        ensures
            r@ == Map::<Seq<char>, Seq<char>>::empty(),
    {
        RouteParameters { pairs: Vec::with_capacity(capacity) }
    }

    /// Builds the parameter bag described by a list of (name, value) pairs;
    /// a later pair for a name overrides an earlier one.
    pub fn new(pairs: Vec<(String, String)>) -> (r: RouteParameters)
        ensures
            r@ == map_of_pairs(pairs@),
    {
        let n = pairs.len();
        let mut out: Vec<(String, String)> = Vec::with_capacity(n);
        let mut i: usize = 0;
        while i < n
            invariant
                i <= n,
                n == pairs@.len(),
                distinct_names(out@),
                map_of_pairs(out@) == map_of_pairs(pairs@.take(i as int)),
            decreases n - i,
        {
            let name = pairs[i].0.clone();
            let value = pairs[i].1.clone();
            insert_pair(&mut out, name, value);
            proof {
                assert(pairs@.take(i + 1).drop_last() =~= pairs@.take(i as int));
                assert(pairs@.take(i + 1).last() == pairs@[i as int]);
            }
            i = i + 1;
        }
        proof {
            assert(pairs@.take(n as int) =~= pairs@);
        }
        RouteParameters { pairs: out }
    }

    /// The number of captured parameters.
    pub fn len(&self) -> (r: usize)
        ensures
            r == self@.dom().len(),
    {
        proof {
            use_type_invariant(self);
            lemma_map_of_pairs_dom_len(self.pairs@);
        }
        self.pairs.len()
    }

    /// Looks up the value captured for a parameter name.
    pub fn get(&self, param_name: &str) -> (r: Option<&String>)
        ensures
            match r {
                Some(v) => self@.contains_key(param_name@) && v@ == self@[param_name@],
                None => !self@.contains_key(param_name@),
            },
    {
        proof {
            use_type_invariant(self);
        }
        let n = self.pairs.len();
        let mut i: usize = 0;
        while i < n
            invariant
                i <= n,
                n == self.pairs@.len(),
                distinct_names(self.pairs@),
                forall|j: int| 0 <= j < i ==> self.pairs@[j].0@ != param_name@,
            decreases n - i,
        {
            if str_eq(self.pairs[i].0.as_str(), param_name) {
                proof {
                    lemma_map_of_pairs_get(self.pairs@, i as int);
                }
                return Some(&self.pairs[i].1);
            }
            i = i + 1;
        }
        proof {
            lemma_map_of_pairs_contains(self.pairs@, param_name@);
        }
        None
    }
}

} // verus!
