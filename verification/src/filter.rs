//! The loop filter.
//!
//! A comparison against a loop counter fills the log of its site with values
//! that rise or fall from entry to entry. Such a site tells nothing about the
//! input, so it is recognised by its values alone and left out.
//!
//! The filter counts, over consecutive recorded values, how often an operand
//! is greater than the one before it, and how often it is smaller, for each
//! of the two operands. A counter that passes the end of the 64-bit range and
//! starts again at the other end still counts as rising (or falling). Only
//! integer values take part. A site with more than four recorded entries is
//! discarded when one of the four counts reaches the number of entries minus
//! two: a full run of `n` entries has `n - 1` such steps, and one broken step
//! (a counter that started over, or one value out of line) is let pass.

use vstd::prelude::*;
use crate::layout::{decode_prefix, CMPLOG_MAP_H};
use crate::trace_map::AFLppCmpLogMap;
use crate::values::CmpValuesView;

verus! {

/// Up to this many recorded entries a site is never taken for a loop.
pub const LOOP_FILTER_MIN_EXECS: usize = 4;

/// How many steps short of the number of entries a count may be and still
/// mark the site as a loop.
pub const LOOP_FILTER_SLACK: usize = 2;

/// One of the four runs that the filter looks for.
#[derive(Clone, Copy, Debug, PartialEq, Eq, Structural)]
pub enum Trend {
    /// The first operand rises.
    FirstUp,
    /// The second operand rises.
    SecondUp,
    /// The first operand falls.
    FirstDown,
    /// The second operand falls.
    SecondDown,
}

/// `v` comes after `l` in a rising run: it is greater, or it is the
/// successor of `l` across the upper end of the 64-bit range.
pub open spec fn rises(l: u64, v: u64) -> bool {
    l < v || l.wrapping_add(1) == v
}

/// `v` comes after `l` in a falling run: it is smaller, or it is the
/// predecessor of `l` across the lower end of the 64-bit range.
pub open spec fn falls(l: u64, v: u64) -> bool {
    l > v || l.wrapping_sub(1) == v
}

/// `cur` continues the run `t` after `prev`: both are integers, and the
/// operand in question rose (or fell, as `t` has it), be it across the end
/// of the 64-bit range.
pub open spec fn follows(prev: CmpValuesView, cur: CmpValuesView, t: Trend) -> bool {
    match (prev.u64_pair(), cur.u64_pair()) {
        (Some(l), Some(v)) => match t {
            Trend::FirstUp => rises(l.0, v.0),
            Trend::SecondUp => rises(l.1, v.1),
            Trend::FirstDown => falls(l.0, v.0),
            Trend::SecondDown => falls(l.1, v.1),
        },
        _ => false,
    }
}

/// `cur` is strictly beyond `prev` in the direction of `t`: both are
/// integers, and the operand in question is strictly greater (or smaller).
pub open spec fn strictly_beyond(prev: CmpValuesView, cur: CmpValuesView, t: Trend) -> bool {
    match (prev.u64_pair(), cur.u64_pair()) {
        (Some(l), Some(v)) => match t {
            Trend::FirstUp => l.0 < v.0,
            Trend::SecondUp => l.1 < v.1,
            Trend::FirstDown => l.0 > v.0,
            Trend::SecondDown => l.1 > v.1,
        },
        _ => false,
    }
}

/// Number of places in `vals` where a value continues the run `t` after the
/// value before it.
pub open spec fn steps(vals: Seq<CmpValuesView>, t: Trend) -> nat
    decreases vals.len(),
{
    if vals.len() < 2 {
        0
    } else {
        steps(vals.drop_last(), t) + if follows(vals[vals.len() - 2], vals.last(), t) {
            1nat
        } else {
            0nat
        }
    }
}

/// The verdict of the filter on a site with `execs` recorded entries that
/// decoded to `vals`.
pub open spec fn is_loop(execs: int, vals: Seq<CmpValuesView>) -> bool {
    &&& execs > 4
    &&& {
        ||| steps(vals, Trend::FirstUp) >= execs - 2
        ||| steps(vals, Trend::SecondUp) >= execs - 2
        ||| steps(vals, Trend::FirstDown) >= execs - 2
        ||| steps(vals, Trend::SecondDown) >= execs - 2
    }
}

/// Adding a value to a sequence adds one step where the value follows the last one.
pub proof fn lemma_steps_push(vals: Seq<CmpValuesView>, v: CmpValuesView, t: Trend)
    ensures
        steps(vals.push(v), t) == steps(vals, t) + if vals.len() > 0 && follows(vals.last(), v, t) {
            1nat
        } else {
            0nat
        },
{
    assert(vals.push(v).drop_last() =~= vals);
}

/// The steps of `vals` are the places between two values, less the places
/// where the run `t` is broken; with at most one broken place `gap`, that is
/// all of them or all but one.
pub proof fn lemma_steps_with_one_gap(vals: Seq<CmpValuesView>, t: Trend, gap: int)
    requires
        vals.len() >= 1,
        forall|k: int| 0 <= k < vals.len() - 1 && k != gap ==> follows(vals[k], #[trigger] vals[k + 1], t),
    ensures
        steps(vals, t) >= vals.len() - 2,
        !(0 <= gap < vals.len() - 1) ==> steps(vals, t) == vals.len() - 1,
    decreases vals.len(),
{
    if vals.len() >= 2 {
        let init = vals.drop_last();
        assert forall|k: int| 0 <= k < init.len() - 1 && k != gap implies follows(
            init[k],
            #[trigger] init[k + 1],
            t,
        ) by {
            assert(init[k] == vals[k]);
            assert(init[k + 1] == vals[k + 1]);
        }
        let last = vals.len() - 2;
        if gap == last {
            // the broken place is the last one: all places before it hold
            lemma_steps_with_one_gap(init, t, -1);
        } else {
            lemma_steps_with_one_gap(init, t, gap);
            assert(follows(vals[last], vals[last + 1], t));
        }
    }
}

/// With four recorded entries or fewer the filter discards nothing, whatever
/// the values are.
pub proof fn lemma_small_sample_kept(execs: int, vals: Seq<CmpValuesView>)
    requires
        execs <= 4,
    ensures
        !is_loop(execs, vals),
{
}

/// A site with more than four entries whose values are strictly monotonic,
/// rising (or falling) from each entry to the next in the first (or second)
/// operand, is discarded.
pub proof fn lemma_monotonic_discarded(execs: int, vals: Seq<CmpValuesView>, t: Trend)
    requires
        execs > 4,
        vals.len() == execs,
        forall|k: int|
            0 <= k < vals.len() - 1 ==> strictly_beyond(vals[k], #[trigger] vals[k + 1], t),
    ensures
        is_loop(execs, vals),
{
    lemma_steps_with_one_gap(vals, t, -1);
}

/// A run that is broken at one place, between entry `gap` and the next, is
/// discarded all the same: a counter may start over once.
pub proof fn lemma_one_break_tolerated(execs: int, vals: Seq<CmpValuesView>, t: Trend, gap: int)
    requires
        execs > 4,
        vals.len() == execs,
        forall|k: int| 0 <= k < vals.len() - 1 && k != gap ==> follows(vals[k], #[trigger] vals[k + 1], t),
    ensures
        is_loop(execs, vals),
{
    lemma_steps_with_one_gap(vals, t, gap);
}

/// One value out of line is tolerated: a site with more than four integer
/// entries that are strictly monotonic but for the entry `point`, which may
/// hold any integers, is discarded. The entry out of line breaks the step
/// into it or the step out of it, never both.
pub proof fn lemma_one_point_tolerated(execs: int, vals: Seq<CmpValuesView>, t: Trend, point: int)
    requires
        execs > 4,
        vals.len() == execs,
        0 <= point < vals.len(),
        vals[point].is_numeric(),
        forall|k: int|
            0 <= k < vals.len() - 1 && k != point && k + 1 != point ==> strictly_beyond(
                vals[k],
                #[trigger] vals[k + 1],
                t,
            ),
        0 < point < vals.len() - 1 ==> strictly_beyond(vals[point - 1], vals[point + 1], t),
    ensures
        is_loop(execs, vals),
{
    let gap = if point > 0 && (point == vals.len() - 1 || !follows(vals[point - 1], vals[point], t)) {
        point - 1
    } else {
        point
    };
    assert forall|k: int| 0 <= k < vals.len() - 1 && k != gap implies follows(
        vals[k],
        #[trigger] vals[k + 1],
        t,
    ) by {
        if k != point && k + 1 != point {
            assert(strictly_beyond(vals[k], vals[k + 1], t));
        } else if k == point {
            // the step into the point is broken, so the point lies short of
            // the entry before it, and of the entry after it all the more
            assert(0 < point < vals.len() - 1);
            assert(!follows(vals[point - 1], vals[point], t));
            assert(strictly_beyond(vals[point - 1], vals[point + 1], t));
        } else {
            assert(follows(vals[point - 1], vals[point], t));
        }
    }
    lemma_steps_with_one_gap(vals, t, gap);
}

/// Values that are not integers add no step to any run.
pub proof fn lemma_bytes_add_no_step(vals: Seq<CmpValuesView>, t: Trend)
    requires
        forall|k: int| 0 <= k < vals.len() ==> !(#[trigger] vals[k]).is_numeric(),
    ensures
        steps(vals, t) == 0,
    decreases vals.len(),
{
    if vals.len() >= 2 {
        let init = vals.drop_last();
        assert forall|k: int| 0 <= k < init.len() implies !(#[trigger] init[k]).is_numeric() by {
            assert(init[k] == vals[k]);
        }
        lemma_bytes_add_no_step(init, t);
        assert(!vals.last().is_numeric());
    }
}

/// A site whose entries are all byte strings is never discarded, whatever
/// the strings hold and however many there are.
pub proof fn lemma_bytes_never_discarded(execs: int, vals: Seq<CmpValuesView>)
    requires
        forall|k: int| 0 <= k < vals.len() ==> !(#[trigger] vals[k]).is_numeric(),
    ensures
        !is_loop(execs, vals),
{
    lemma_bytes_add_no_step(vals, Trend::FirstUp);
    lemma_bytes_add_no_step(vals, Trend::SecondUp);
    lemma_bytes_add_no_step(vals, Trend::FirstDown);
    lemma_bytes_add_no_step(vals, Trend::SecondDown);
}

/// Runs the filter on site `idx` of the map: tells whether the values
/// recorded for the site rise or fall like those of a loop counter.
pub fn loop_driven(map: &AFLppCmpLogMap, idx: usize) -> (discard: bool)
    ensures
        discard == is_loop(map.recorded_for(idx), map.values_for(idx)),
        map.recorded_for(idx) <= 4 ==> !discard,
{
    let execs: usize = map.usable_executions_for(idx);
    if execs <= LOOP_FILTER_MIN_EXECS {
        return false;
    }
    let ghost s = map.bytes();
    let ghost w = map.spec_len() as int;
    let mut first_up: usize = 0;
    let mut second_up: usize = 0;
    let mut first_down: usize = 0;
    let mut second_down: usize = 0;
    let mut last: Option<(u64, u64)> = None;
    let mut j: usize = 0;
    while j < execs
        invariant
            j <= execs <= CMPLOG_MAP_H,
            execs == map.recorded_for(idx),
            map.has_site(idx),
            s == map.bytes(),
            w == map.spec_len(),
            first_up == steps(decode_prefix(s, w, idx as int, j as nat), Trend::FirstUp),
            second_up == steps(decode_prefix(s, w, idx as int, j as nat), Trend::SecondUp),
            first_down == steps(decode_prefix(s, w, idx as int, j as nat), Trend::FirstDown),
            second_down == steps(decode_prefix(s, w, idx as int, j as nat), Trend::SecondDown),
            first_up <= j && second_up <= j && first_down <= j && second_down <= j,
            last == if decode_prefix(s, w, idx as int, j as nat).len() > 0 {
                decode_prefix(s, w, idx as int, j as nat).last().u64_pair()
            } else {
                None
            },
        decreases execs - j,
    {
        let ghost seen = decode_prefix(s, w, idx as int, j as nat);
        if let Some(val) = map.values_of(idx, j) {
            let cur = val.to_u64_tuple();
            proof {
                lemma_steps_push(seen, val@, Trend::FirstUp);
                lemma_steps_push(seen, val@, Trend::SecondUp);
                lemma_steps_push(seen, val@, Trend::FirstDown);
                lemma_steps_push(seen, val@, Trend::SecondDown);
            }
            if let Some(l) = last {
                if let Some(v) = cur {
                    if l.0 < v.0 || l.0.wrapping_add(1) == v.0 {
                        first_up = first_up + 1;
                    }
                    if l.1 < v.1 || l.1.wrapping_add(1) == v.1 {
                        second_up = second_up + 1;
                    }
                    if l.0 > v.0 || l.0.wrapping_sub(1) == v.0 {
                        first_down = first_down + 1;
                    }
                    if l.1 > v.1 || l.1.wrapping_sub(1) == v.1 {
                        second_down = second_down + 1;
                    }
                }
            }
            last = cur;
        }
        j = j + 1;
    }
    first_up >= execs - LOOP_FILTER_SLACK || second_up >= execs - LOOP_FILTER_SLACK || first_down >= execs
        - LOOP_FILTER_SLACK || second_down >= execs - LOOP_FILTER_SLACK
}

} // verus!
