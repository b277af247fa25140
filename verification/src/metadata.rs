//! The store of comparison values that outlives single executions.
//!
//! One fuzzing round runs the target twice through the same observer: first
//! on the input as it is (the baseline pass), then on a mutated copy (the
//! mutated pass). The store keeps, by site, the values of the baseline pass
//! with the headers of their sites, and the values of the mutated pass. What
//! reads the store afterwards compares the two, site by site.
//!
//! Sites that the loop filter discards never get into the store.

use std::collections::HashMap;
use vstd::prelude::*;
use crate::filter::{
    is_loop, loop_driven, strictly_beyond, lemma_monotonic_discarded, lemma_one_point_tolerated, Trend,
};
use crate::header::AFLppCmpLogHeader;
use crate::layout::decode_prefix;
use crate::trace_map::AFLppCmpLogMap;
use crate::values::{CmpValues, CmpValuesView};

verus! {

/// Which of the two executions of a round a trace comes from.
#[derive(Clone, Copy, Debug, PartialEq, Eq, Structural)]
pub enum PassMode {
    /// The input as it is.
    Baseline,
    /// A mutated copy of the input.
    Mutated,
}

impl PassMode {
    /// The pass that a run of the original input, or of another one, counts as.
    pub fn of_original(original: bool) -> (mode: PassMode)
        ensures
            mode == if original {
                PassMode::Baseline
            } else {
                PassMode::Mutated
            },
    {
        if original {
            PassMode::Baseline
        } else {
            PassMode::Mutated
        }
    }

    /// Tells whether this is the pass of the original input.
    pub fn is_original(&self) -> (b: bool)
        ensures
            b == (*self == PassMode::Baseline),
    {
        match self {
            PassMode::Baseline => true,
            PassMode::Mutated => false,
        }
    }
}

/// Site `idx` has recorded entries and passes the loop filter.
pub open spec fn kept(map: &AFLppCmpLogMap, idx: usize) -> bool {
    map.recorded_for(idx) > 0 && !is_loop(map.recorded_for(idx), map.values_for(idx))
}

/// The values that one pass over the first `count` sites of `map` yields:
/// for each site that is kept, all its recorded values in order.
pub open spec fn pass_values(map: &AFLppCmpLogMap, count: usize) -> Map<usize, Seq<CmpValuesView>> {
    Map::new(|i: usize| i < count && kept(map, i), |i: usize| map.values_for(i))
}

/// The headers that a baseline pass over the first `count` sites of `map`
/// yields: the header of each site with a recorded entry, kept or not.
pub open spec fn pass_headers(map: &AFLppCmpLogMap, count: usize) -> Map<usize, AFLppCmpLogHeader> {
    Map::new(|i: usize| i < count && map.recorded_for(i) > 0, |i: usize| map.header_of(i))
}

/// What a pass yields for a site is all that the site recorded, and it
/// yields something for exactly the sites among the first `count` that have a
/// recorded entry and pass the loop filter. A site that the filter discards
/// is never among them.
pub proof fn lemma_pass_holds_the_kept_sites(map: &AFLppCmpLogMap, count: usize, idx: usize)
    ensures
        pass_values(map, count).contains_key(idx) <==> idx < count && kept(map, idx),
        pass_values(map, count).contains_key(idx) ==> pass_values(map, count)[idx] == map.values_for(
            idx,
        ),
        is_loop(map.recorded_for(idx), map.values_for(idx)) ==> !pass_values(map, count).contains_key(
            idx,
        ),
        pass_headers(map, count).contains_key(idx) <==> idx < count && map.recorded_for(idx) > 0,
        pass_values(map, count).contains_key(idx) ==> pass_headers(map, count).contains_key(idx),
{
}

/// A pass yields nothing for a site with more than four recorded entries,
/// all of them decoded, whose values are strictly monotonic: rising (or
/// falling) from each entry to the next in the first (or second) operand.
pub proof fn lemma_monotonic_site_is_left_out(map: &AFLppCmpLogMap, count: usize, idx: usize, t: Trend)
    requires
        map.recorded_for(idx) > 4,
        map.values_for(idx).len() == map.recorded_for(idx),
        forall|k: int|
            0 <= k < map.values_for(idx).len() - 1 ==> strictly_beyond(
                map.values_for(idx)[k],
                #[trigger] map.values_for(idx)[k + 1],
                t,
            ),
    ensures
        !kept(map, idx),
        !pass_values(map, count).contains_key(idx),
{
    lemma_monotonic_discarded(map.recorded_for(idx), map.values_for(idx), t);
}

/// A pass yields nothing either where one entry of such a site, `point`, is
/// out of line.
pub proof fn lemma_site_with_one_point_out_of_line_is_left_out(
    map: &AFLppCmpLogMap,
    count: usize,
    idx: usize,
    t: Trend,
    point: int,
)
    requires
        map.recorded_for(idx) > 4,
        map.values_for(idx).len() == map.recorded_for(idx),
        0 <= point < map.values_for(idx).len(),
        map.values_for(idx)[point].is_numeric(),
        forall|k: int|
            0 <= k < map.values_for(idx).len() - 1 && k != point && k + 1 != point
                ==> strictly_beyond(map.values_for(idx)[k], #[trigger] map.values_for(idx)[k + 1], t),
        0 < point < map.values_for(idx).len() - 1 ==> strictly_beyond(
            map.values_for(idx)[point - 1],
            map.values_for(idx)[point + 1],
            t,
        ),
    ensures
        !kept(map, idx),
        !pass_values(map, count).contains_key(idx),
{
    lemma_one_point_tolerated(map.recorded_for(idx), map.values_for(idx), t, point);
}

/// Reads out all values recorded for site `idx`, in the order of recording.
pub fn collect_values(map: &AFLppCmpLogMap, idx: usize) -> (vals: Vec<CmpValues>)
    ensures
        vals.deep_view() == map.values_for(idx),
{
    let execs: usize = map.usable_executions_for(idx);
    let ghost s = map.bytes();
    let ghost w = map.spec_len() as int;
    let mut vals: Vec<CmpValues> = Vec::new();
    let mut j: usize = 0;
    assert(vals.deep_view() =~= decode_prefix(s, w, idx as int, 0));
    while j < execs
        invariant
            j <= execs,
            execs == map.recorded_for(idx),
            s == map.bytes(),
            w == map.spec_len(),
            vals.deep_view() == decode_prefix(s, w, idx as int, j as nat),
        decreases execs - j,
    {
        let ghost before = vals.deep_view();
        if let Some(val) = map.values_of(idx, j) {
            vals.push(val);
            assert(vals.deep_view() =~= before.push(val@));
        }
        j = j + 1;
    }
    vals
}

/// The values of the two passes and the headers of the baseline pass, by site.
#[derive(Debug)]
pub struct AFLppCmpValuesMetadata {
    orig_cmpvals: HashMap<usize, Vec<CmpValues>>,
    new_cmpvals: HashMap<usize, Vec<CmpValues>>,
    headers: HashMap<usize, AFLppCmpLogHeader>,
}

/// The recorded values behind a map of vectors.
pub open spec fn values_by_site(m: Map<usize, Vec<CmpValues>>) -> Map<usize, Seq<CmpValuesView>> {
    Map::new(|i: usize| m.contains_key(i), |i: usize| m[i].deep_view())
}

impl Default for AFLppCmpValuesMetadata {
    /// An empty store.
    fn default() -> (meta: Self)
        ensures
            meta.originals() == Map::<usize, Seq<CmpValuesView>>::empty(),
            meta.mutated() == Map::<usize, Seq<CmpValuesView>>::empty(),
            meta.snapshots() == Map::<usize, AFLppCmpLogHeader>::empty(),
    {
        AFLppCmpValuesMetadata::new()
    }
}

impl AFLppCmpValuesMetadata {
    /// Values of the baseline pass, by site.
    pub closed spec fn originals(&self) -> Map<usize, Seq<CmpValuesView>> {
        values_by_site(self.orig_cmpvals@)
    }

    /// Values of the mutated pass, by site.
    pub closed spec fn mutated(&self) -> Map<usize, Seq<CmpValuesView>> {
        values_by_site(self.new_cmpvals@)
    }

    /// Headers of the baseline pass, by site.
    pub closed spec fn snapshots(&self) -> Map<usize, AFLppCmpLogHeader> {
        self.headers@
    }

    /// An empty store.
    pub fn new() -> (meta: Self)
        ensures
            meta.originals() == Map::<usize, Seq<CmpValuesView>>::empty(),
            meta.mutated() == Map::<usize, Seq<CmpValuesView>>::empty(),
            meta.snapshots() == Map::<usize, AFLppCmpLogHeader>::empty(),
    {
        let meta = AFLppCmpValuesMetadata {
            orig_cmpvals: HashMap::new(),
            new_cmpvals: HashMap::new(),
            headers: HashMap::new(),
        };
        assert(meta.originals() =~= Map::<usize, Seq<CmpValuesView>>::empty());
        assert(meta.mutated() =~= Map::<usize, Seq<CmpValuesView>>::empty());
        meta
    }

    /// The values of the baseline pass.
    pub fn orig_cmpvals(&self) -> (m: &HashMap<usize, Vec<CmpValues>>)
        ensures
            values_by_site(m@) == self.originals(),
    {
        &self.orig_cmpvals
    }

    /// The values of the mutated pass.
    pub fn new_cmpvals(&self) -> (m: &HashMap<usize, Vec<CmpValues>>)
        ensures
            values_by_site(m@) == self.mutated(),
    {
        &self.new_cmpvals
    }

    /// The headers of the baseline pass.
    pub fn headers(&self) -> (m: &HashMap<usize, AFLppCmpLogHeader>)
        ensures
            m@ == self.snapshots(),
    {
        &self.headers
    }

    /// Forgets what the pass `mode` had stored: a baseline pass its values
    /// and headers, a mutated pass its values. The rest stays.
    pub fn clear_pass(&mut self, mode: PassMode)
        ensures
            final(self).originals() == if mode == PassMode::Baseline {
                Map::<usize, Seq<CmpValuesView>>::empty()
            } else {
                old(self).originals()
            },
            final(self).snapshots() == if mode == PassMode::Baseline {
                Map::<usize, AFLppCmpLogHeader>::empty()
            } else {
                old(self).snapshots()
            },
            final(self).mutated() == if mode == PassMode::Baseline {
                old(self).mutated()
            } else {
                Map::<usize, Seq<CmpValuesView>>::empty()
            },
    {
        match mode {
            PassMode::Baseline => {
                self.orig_cmpvals.clear();
                self.headers.clear();
                assert(self.originals() =~= Map::<usize, Seq<CmpValuesView>>::empty());
            },
            PassMode::Mutated => {
                self.new_cmpvals.clear();
                assert(self.mutated() =~= Map::<usize, Seq<CmpValuesView>>::empty());
            },
        }
    }

    /// Stores the values of one site for the pass `mode`, in place of what
    /// the pass had for the site.
    fn store_values(&mut self, mode: PassMode, idx: usize, vals: Vec<CmpValues>)
        ensures
            final(self).originals() == if mode == PassMode::Baseline {
                old(self).originals().insert(idx, vals.deep_view())
            } else {
                old(self).originals()
            },
            final(self).mutated() == if mode == PassMode::Baseline {
                old(self).mutated()
            } else {
                old(self).mutated().insert(idx, vals.deep_view())
            },
            final(self).snapshots() == old(self).snapshots(),
    {
        match mode {
            PassMode::Baseline => {
                self.orig_cmpvals.insert(idx, vals);
                assert(self.originals() =~= old(self).originals().insert(idx, vals.deep_view()));
            },
            PassMode::Mutated => {
                self.new_cmpvals.insert(idx, vals);
                assert(self.mutated() =~= old(self).mutated().insert(idx, vals.deep_view()));
            },
        }
    }

    /// Stores the header of one site.
    fn store_header(&mut self, idx: usize, h: AFLppCmpLogHeader)
        ensures
            final(self).snapshots() == old(self).snapshots().insert(idx, h),
            final(self).originals() == old(self).originals(),
            final(self).mutated() == old(self).mutated(),
    {
        self.headers.insert(idx, h);
    }
    /// Takes in the trace of one execution: goes through the first
    /// `usable_count` sites of `map` and, for each site with a recorded entry,
    /// stores the header of the site (in a baseline pass) and, unless the
    /// loop filter discards the site, all its values, under the pass `mode`.
    /// What is stored takes the place of what the store had for that site;
    /// other sites, and the other pass, stay as they were.
    pub fn add_from(&mut self, usable_count: usize, map: &AFLppCmpLogMap, mode: PassMode)
        ensures
            final(self).snapshots() == if mode == PassMode::Baseline {
                old(self).snapshots().union_prefer_right(pass_headers(map, usable_count))
            } else {
                old(self).snapshots()
            },
            final(self).originals() == if mode == PassMode::Baseline {
                old(self).originals().union_prefer_right(pass_values(map, usable_count))
            } else {
                old(self).originals()
            },
            final(self).mutated() == if mode == PassMode::Baseline {
                old(self).mutated()
            } else {
                old(self).mutated().union_prefer_right(pass_values(map, usable_count))
            },
    {
        let ghost snapshots0 = self.snapshots();
        let ghost originals0 = self.originals();
        let ghost mutated0 = self.mutated();
        let width: usize = map.len();
        let count: usize = if usable_count < width {
            usable_count
        } else {
            width
        };
        let mut i: usize = 0;
        assert(pass_headers(map, 0) =~= Map::<usize, AFLppCmpLogHeader>::empty());
        assert(pass_values(map, 0) =~= Map::<usize, Seq<CmpValuesView>>::empty());
        assert(snapshots0.union_prefer_right(pass_headers(map, 0)) =~= snapshots0);
        assert(originals0.union_prefer_right(pass_values(map, 0)) =~= originals0);
        assert(mutated0.union_prefer_right(pass_values(map, 0)) =~= mutated0);
        while i < count
            invariant
                i <= count,
                self.snapshots() == if mode == PassMode::Baseline {
                    snapshots0.union_prefer_right(pass_headers(map, i))
                } else {
                    snapshots0
                },
                self.originals() == if mode == PassMode::Baseline {
                    originals0.union_prefer_right(pass_values(map, i))
                } else {
                    originals0
                },
                self.mutated() == if mode == PassMode::Baseline {
                    mutated0
                } else {
                    mutated0.union_prefer_right(pass_values(map, i))
                },
            decreases count - i,
        {
            let next: usize = i + 1;
            let execs: usize = map.usable_executions_for(i);
            if execs > 0 {
                if let PassMode::Baseline = mode {
                    if let Some(h) = map.header(i) {
                        self.store_header(i, h);
                    }
                }
                if !loop_driven(map, i) {
                    let vals = collect_values(map, i);
                    self.store_values(mode, i, vals);
                }
            }
            proof {
                let hs = pass_headers(map, i);
                let vs = pass_values(map, i);
                if map.recorded_for(i) > 0 {
                    assert(pass_headers(map, next) =~= hs.insert(i, map.header_of(i)));
                    assert(snapshots0.union_prefer_right(hs.insert(i, map.header_of(i)))
                        =~= snapshots0.union_prefer_right(hs).insert(i, map.header_of(i)));
                } else {
                    assert(pass_headers(map, next) =~= hs);
                }
                if kept(map, i) {
                    assert(pass_values(map, next) =~= vs.insert(i, map.values_for(i)));
                    assert(originals0.union_prefer_right(vs.insert(i, map.values_for(i)))
                        =~= originals0.union_prefer_right(vs).insert(i, map.values_for(i)));
                    assert(mutated0.union_prefer_right(vs.insert(i, map.values_for(i)))
                        =~= mutated0.union_prefer_right(vs).insert(i, map.values_for(i)));
                } else {
                    assert(pass_values(map, next) =~= vs);
                }
            }
            i = next;
        }
        proof {
            // past the last site of the map nothing is recorded
            assert(pass_headers(map, count) =~= pass_headers(map, usable_count));
            assert(pass_values(map, count) =~= pass_values(map, usable_count));
        }
    }
}

} // verus!
