//! Proportional distribution of a budget of pixels among weighted slots.
//!
//! Each slot may absorb up to its `limit`; a slot of weight zero absorbs
//! nothing. In each pass the outstanding budget is divided among the slots that
//! can still absorb something, in proportion to their weights and with
//! truncating division; passes repeat until the budget is used up, no slot can
//! absorb more, or a pass absorbs nothing.
use vstd::prelude::*;

use crate::ValueRange;

verus! {

/// Sum of a sequence of integers.
pub open spec fn total(s: Seq<int>) -> int
    decreases s.len(),
{
    if s.len() == 0 {
        0
    } else {
        total(s.drop_last()) + s.last()
    }
}

/// A sequence of `u32` read as mathematical integers.
pub open spec fn as_ints(v: Seq<u32>) -> Seq<int> {
    Seq::new(v.len(), |i: int| v[i] as int)
}

/// Slot `i` can still absorb part of the budget.
pub open spec fn eligible(d: Seq<int>, limits: Seq<int>, weights: Seq<u32>, i: int) -> bool {
    weights[i] > 0 && d[i] < limits[i]
}

/// Sum of the weights of the eligible slots from index `j` on.
pub open spec fn pending_weight(d: Seq<int>, limits: Seq<int>, weights: Seq<u32>, j: int) -> int
    decreases weights.len() - j,
{
    if j >= weights.len() {
        0
    } else {
        (if eligible(d, limits, weights, j) {
            weights[j] as int
        } else {
            0
        }) + pending_weight(d, limits, weights, j + 1)
    }
}

/// The share of `budget` that a slot of weight `w` is offered when `rw` is the
/// weight still waiting in this pass, cut to what the slot can still absorb.
pub open spec fn step_of(budget: int, w: int, rw: int, room: int) -> int {
    let share = budget * w / rw;
    if share < room {
        share
    } else {
        room
    }
}

/// One pass from slot `j` on: the amounts absorbed so far and the budget left.
pub open spec fn pass_from(
    d: Seq<int>,
    limits: Seq<int>,
    weights: Seq<u32>,
    budget: int,
    rw: int,
    j: int,
) -> (Seq<int>, int)
    decreases weights.len() - j,
{
    if j >= weights.len() {
        (d, budget)
    } else if eligible(d, limits, weights, j) {
        let step = step_of(budget, weights[j] as int, rw, limits[j] - d[j]);
        pass_from(
            d.update(j, d[j] + step),
            limits,
            weights,
            budget - step,
            rw - weights[j],
            j + 1,
        )
    } else {
        pass_from(d, limits, weights, budget, rw, j + 1)
    }
}

/// Passes repeated from the absorbed amounts `d` with `budget` outstanding.
pub open spec fn distribute_from(d: Seq<int>, limits: Seq<int>, weights: Seq<u32>, budget: int) -> Seq<int>
    decreases budget,
{
    if budget <= 0 {
        d
    } else {
        let rw = pending_weight(d, limits, weights, 0);
        if rw == 0 {
            d
        } else {
            let (d2, b2) = pass_from(d, limits, weights, budget, rw, 0);
            if 0 <= b2 < budget {
                distribute_from(d2, limits, weights, b2)
            } else {
                d2
            }
        }
    }
}

/// The amount each slot absorbs when `budget` is distributed from nothing.
pub open spec fn distribution(limits: Seq<int>, weights: Seq<u32>, budget: int) -> Seq<int> {
    distribute_from(Seq::new(limits.len(), |i: int| 0), limits, weights, budget)
}

/// The most the weighted slots can absorb together.
pub open spec fn capacity(limits: Seq<int>, weights: Seq<u32>) -> int {
    total(Seq::new(limits.len(), |i: int| if weights[i] > 0 { limits[i] } else { 0 }))
}

/// The absorbed amounts respect the limits, and slots of weight zero hold none.
pub open spec fn within_limits(d: Seq<int>, limits: Seq<int>, weights: Seq<u32>) -> bool {
    &&& d.len() == limits.len() == weights.len()
    &&& forall|i: int| 0 <= i < d.len() ==> 0 <= #[trigger] d[i] <= limits[i]
    &&& forall|i: int| 0 <= i < d.len() && weights[i] == 0 ==> #[trigger] d[i] == 0
}

/// Extending a prefix by one element adds that element to its sum.
pub proof fn lemma_total_take_step(s: Seq<int>, i: int)
    requires
        0 <= i < s.len(),
    ensures
        total(s.take(i + 1)) == total(s.take(i)) + s[i],
{
    assert(s.take(i + 1).drop_last() =~= s.take(i));
}

/// The sum of a pointwise sum is the sum of the sums.
pub proof fn lemma_total_pointwise(a: Seq<int>, b: Seq<int>, s: Seq<int>)
    requires
        a.len() == b.len() == s.len(),
        forall|i: int| 0 <= i < s.len() ==> #[trigger] s[i] == a[i] + b[i],
    ensures
        total(s) == total(a) + total(b),
    decreases s.len(),
{
    if s.len() > 0 {
        lemma_total_pointwise(a.drop_last(), b.drop_last(), s.drop_last());
    }
}

/// Sequences that agree on every index have the same sum.
pub proof fn lemma_total_same(a: Seq<int>, b: Seq<int>)
    requires
        a.len() == b.len(),
        forall|i: int| 0 <= i < a.len() ==> #[trigger] a[i] == b[i],
    ensures
        total(a) == total(b),
{
    assert(a =~= b);
}

/// Sum of a sequence after one element was replaced.
pub proof fn lemma_total_update(d: Seq<int>, j: int, v: int)
    requires
        0 <= j < d.len(),
    ensures
        total(d.update(j, v)) == total(d) - d[j] + v,
    decreases d.len(),
{
    let u = d.update(j, v);
    if j == d.len() - 1 {
        assert(u.drop_last() =~= d.drop_last());
    } else {
        lemma_total_update(d.drop_last(), j, v);
        assert(u.drop_last() =~= d.drop_last().update(j, v));
    }
}

/// A sum of values that are each at least zero and at most `m` lies in `[0, len * m]`.
pub proof fn lemma_total_bounds(s: Seq<int>, m: int)
    requires
        forall|i: int| 0 <= i < s.len() ==> 0 <= #[trigger] s[i] <= m,
    ensures
        0 <= total(s) <= s.len() * m,
    decreases s.len(),
{
    if s.len() > 0 {
        lemma_total_bounds(s.drop_last(), m);
        assert((s.len() - 1) * m + m == s.len() * m) by (nonlinear_arith);
    }
}

/// The pending weight from `j` on only looks at slots from `j` on.
pub proof fn lemma_pending_unchanged(d: Seq<int>, e: Seq<int>, limits: Seq<int>, weights: Seq<u32>, j: int)
    requires
        0 <= j,
        d.len() == e.len() == weights.len(),
        forall|k: int| j <= k < d.len() ==> #[trigger] d[k] == e[k],
    ensures
        pending_weight(d, limits, weights, j) == pending_weight(e, limits, weights, j),
    decreases weights.len() - j,
{
    if j < weights.len() {
        lemma_pending_unchanged(d, e, limits, weights, j + 1);
    }
}

/// With no pending weight, every weighted slot absorbed its limit.
pub proof fn lemma_pending_zero(d: Seq<int>, limits: Seq<int>, weights: Seq<u32>, j: int, k: int)
    requires
        0 <= j <= k < weights.len(),
        pending_weight(d, limits, weights, j) == 0,
        weights[k] > 0,
    ensures
        d[k] >= limits[k],
    decreases k - j,
{
    lemma_pending_nonneg(d, limits, weights, j + 1);
    if j < k {
        lemma_pending_zero(d, limits, weights, j + 1, k);
    }
}

/// A pass keeps the amounts within their limits, conserves the budget, and,
/// where any weight is pending and budget is left, absorbs something.
pub proof fn lemma_pass(d: Seq<int>, limits: Seq<int>, weights: Seq<u32>, budget: int, rw: int, j: int)
    requires
        0 <= j <= weights.len(),
        within_limits(d, limits, weights),
        rw == pending_weight(d, limits, weights, j),
        0 <= budget,
    ensures
        ({
            let (d2, b2) = pass_from(d, limits, weights, budget, rw, j);
            &&& within_limits(d2, limits, weights)
            &&& total(d2) + b2 == total(d) + budget
            &&& 0 <= b2 <= budget
            &&& (rw > 0 && budget > 0 ==> b2 < budget)
        }),
    decreases weights.len() - j,
{
    if j < weights.len() {
        lemma_pending_nonneg(d, limits, weights, j + 1);
        if eligible(d, limits, weights, j) {
            let w = weights[j] as int;
            let share = budget * w / rw;
            let step = step_of(budget, w, rw, limits[j] - d[j]);
            assert(0 <= share <= budget) by (nonlinear_arith)
                requires
                    0 < w <= rw,
                    0 <= budget,
                    share == budget * w / rw,
            ;
            if rw == w {
                assert(share == budget) by (nonlinear_arith)
                    requires
                        0 < w,
                        rw == w,
                        share == budget * w / rw,
                ;
            }
            let d1 = d.update(j, d[j] + step);
            lemma_total_update(d, j, d[j] + step);
            lemma_pending_unchanged(d, d1, limits, weights, j + 1);
            lemma_pass(d1, limits, weights, budget - step, rw - w, j + 1);
        } else {
            lemma_pass(d, limits, weights, budget, rw, j + 1);
        }
    }
}

/// Pending weight is never negative.
pub proof fn lemma_pending_nonneg(d: Seq<int>, limits: Seq<int>, weights: Seq<u32>, j: int)
    ensures
        pending_weight(d, limits, weights, j) >= 0,
    decreases weights.len() - j,
{
    if j < weights.len() {
        lemma_pending_nonneg(d, limits, weights, j + 1);
    }
}

/// With every weighted slot at its limit, the absorbed total is the capacity.
pub proof fn lemma_full_is_capacity(d: Seq<int>, limits: Seq<int>, weights: Seq<u32>)
    requires
        within_limits(d, limits, weights),
        pending_weight(d, limits, weights, 0) == 0,
    ensures
        total(d) == capacity(limits, weights),
{
    let c = Seq::new(limits.len(), |i: int| if weights[i] > 0 { limits[i] } else { 0 });
    assert forall|i: int| 0 <= i < d.len() implies #[trigger] d[i] == c[i] by {
        if weights[i] > 0 {
            lemma_pending_zero(d, limits, weights, 0, i);
        }
    }
    lemma_total_same(d, c);
}

/// Repeated passes keep the amounts within their limits, never absorb more than
/// the budget, and absorb all of it whenever the weighted slots have room.
pub proof fn lemma_distribute(d: Seq<int>, limits: Seq<int>, weights: Seq<u32>, budget: int)
    requires
        within_limits(d, limits, weights),
        0 <= budget,
    ensures
        ({
            let r = distribute_from(d, limits, weights, budget);
            &&& within_limits(r, limits, weights)
            &&& total(d) <= total(r) <= total(d) + budget
            &&& (total(d) + budget <= capacity(limits, weights) ==> total(r) == total(d) + budget)
        }),
    decreases budget,
{
    if budget > 0 {
        let rw = pending_weight(d, limits, weights, 0);
        if rw == 0 {
            lemma_full_is_capacity(d, limits, weights);
        } else {
            lemma_pending_nonneg(d, limits, weights, 0);
            lemma_pass(d, limits, weights, budget, rw, 0);
            let p = pass_from(d, limits, weights, budget, rw, 0);
            assert(0 <= p.1 < budget);
            lemma_distribute(p.0, limits, weights, p.1);
        }
    }
}


/// Bounds the product that a share is computed from.
proof fn lemma_share_fits(b: int, w: int, rw: int)
    requires
        0 <= b < 0x1_0000_0000_0000_0000_0000_0000,
        0 < w <= u32::MAX,
        w <= rw,
    ensures
        b * w < 0x1_0000_0000_0000_0000_0000_0000_0000_0000,
        0 <= b * w / rw <= b,
        rw == w ==> b * w / rw == b,
{
    assert(b * w < 0x1_0000_0000_0000_0000_0000_0000_0000_0000) by (nonlinear_arith)
        requires
            0 <= b < 0x1_0000_0000_0000_0000_0000_0000,
            0 < w <= u32::MAX,
    ;
    assert(0 <= b * w / rw <= b) by (nonlinear_arith)
        requires
            0 <= b,
            0 < w <= rw,
    ;
    if rw == w {
        assert(b * w / rw == b) by (nonlinear_arith)
            requires
                0 < w,
                rw == w,
        ;
    }
}

/// Distributes `budget` among the slots: each slot absorbs at most its limit,
/// slots of weight zero absorb nothing, and the budget is shared in passes in
/// proportion to the weights of the slots that still have room.
pub fn distribute(limits: &Vec<u32>, weights: &Vec<u32>, budget: u128) -> (d: Vec<u32>)
    requires
        limits.len() == weights.len(),
        budget < 0x1_0000_0000_0000_0000_0000_0000,
    ensures
        as_ints(d@) == distribution(as_ints(limits@), weights@, budget as int),
{
    let n = limits.len();
    let ghost lim = as_ints(limits@);
    let mut d: Vec<u32> = Vec::new();
    let mut i: usize = 0;
    while i < n
        invariant
            i <= n == limits.len(),
            d@.len() == i,
            forall|k: int| 0 <= k < i ==> d@[k] == 0,
        decreases n - i,
    {
        d.push(0);
        i = i + 1;
    }
    assert(as_ints(d@) =~= Seq::new(lim.len(), |k: int| 0));
    let mut b: u128 = budget;
    while b > 0
        invariant
            n == limits.len() == weights.len() == d.len(),
            lim == as_ints(limits@),
            within_limits(as_ints(d@), lim, weights@),
            b <= budget < 0x1_0000_0000_0000_0000_0000_0000,
            distribute_from(as_ints(d@), lim, weights@, b as int) == distribution(
                lim,
                weights@,
                budget as int,
            ),
        ensures
            as_ints(d@) == distribution(lim, weights@, budget as int),
        decreases b,
    {
        let mut rw: u128 = 0;
        let mut k: usize = n;
        while k > 0
            invariant
                k <= n == limits.len() == weights.len() == d.len(),
                lim == as_ints(limits@),
                rw == pending_weight(as_ints(d@), lim, weights@, k as int),
                rw <= (n - k) * 0xFFFF_FFFF,
            decreases k,
        {
            k = k - 1;
            if weights[k] > 0 && d[k] < limits[k] {
                rw = rw + weights[k] as u128;
            }
        }
        if rw == 0 {
            break;
        }
        let ghost d0 = as_ints(d@);
        let ghost rw0 = rw as int;
        let before = b;
        proof {
            lemma_pending_nonneg(d0, lim, weights@, 0);
        }
        let mut j: usize = 0;
        while j < n
            invariant
                j <= n == limits.len() == weights.len() == d.len(),
                lim == as_ints(limits@),
                within_limits(d0, lim, weights@),
                rw0 == pending_weight(d0, lim, weights@, 0),
                rw == pending_weight(as_ints(d@), lim, weights@, j as int),
                b <= before < 0x1_0000_0000_0000_0000_0000_0000,
                forall|k: int| 0 <= k < n ==> as_ints(d@)[k] <= lim[k],
                pass_from(as_ints(d@), lim, weights@, b as int, rw as int, j as int) == pass_from(
                    d0,
                    lim,
                    weights@,
                    before as int,
                    rw0,
                    0,
                ),
            decreases n - j,
        {
            if weights[j] > 0 && d[j] < limits[j] {
                let ghost dj = as_ints(d@);
                proof {
                    lemma_pending_nonneg(dj, lim, weights@, j + 1);
                }
                let w = weights[j] as u128;
                proof {
                    lemma_share_fits(b as int, w as int, rw as int);
                }
                let share = b * w / rw;
                let room = (limits[j] - d[j]) as u128;
                let step = if share < room {
                    share
                } else {
                    room
                };
                let v: u32 = d[j] + step as u32;
                d.set(j, v);
                b = b - step;
                rw = rw - w;
                proof {
                    assert(as_ints(d@) =~= dj.update(j as int, v as int));
                    lemma_pending_unchanged(dj, as_ints(d@), lim, weights@, j + 1);
                }
            }
            j = j + 1;
        }
        proof {
            lemma_pass(d0, lim, weights@, before as int, rw0, 0);
        }
    }
    d
}

/// Preferred extents of the slots.
pub open spec fn preferred_of(ranges: Seq<ValueRange>) -> Seq<int> {
    Seq::new(ranges.len(), |i: int| ranges[i].preferred_value as int)
}

/// Minimum extents of the slots.
pub open spec fn min_of(ranges: Seq<ValueRange>) -> Seq<int> {
    Seq::new(ranges.len(), |i: int| ranges[i].min_value as int)
}

/// Maximum extents of the slots.
pub open spec fn max_of(ranges: Seq<ValueRange>) -> Seq<int> {
    Seq::new(ranges.len(), |i: int| ranges[i].max_value as int)
}

/// How far each slot may shrink below its preferred extent.
pub open spec fn shrink_room(ranges: Seq<ValueRange>) -> Seq<int> {
    Seq::new(
        ranges.len(),
        |i: int|
            if ranges[i].min_value <= ranges[i].preferred_value {
                ranges[i].preferred_value - ranges[i].min_value
            } else {
                0
            },
    )
}

/// How far each slot may grow beyond its preferred extent.
pub open spec fn grow_room(ranges: Seq<ValueRange>) -> Seq<int> {
    Seq::new(
        ranges.len(),
        |i: int|
            if ranges[i].preferred_value <= ranges[i].max_value {
                ranges[i].max_value - ranges[i].preferred_value
            } else {
                0
            },
    )
}

/// The extent each slot gets when the slots share `target` pixels along the
/// axis. At the preferred total every slot keeps its preferred extent. Below
/// it, slots shrink toward their minimums (all of them sit at their minimums
/// once the target is no more than the total of the minimums); above it, they
/// grow toward their maximums in the same way.
pub open spec fn resolve(ranges: Seq<ValueRange>, weights: Seq<u32>, target: int) -> Seq<int> {
    let prefs = preferred_of(ranges);
    let p = total(prefs);
    if target == p {
        prefs
    } else if target < p {
        if total(min_of(ranges)) >= target {
            min_of(ranges)
        } else {
            let d = distribution(shrink_room(ranges), weights, p - target);
            Seq::new(ranges.len(), |i: int| prefs[i] - d[i])
        }
    } else {
        if total(max_of(ranges)) <= target {
            max_of(ranges)
        } else {
            let d = distribution(grow_room(ranges), weights, target - p);
            Seq::new(ranges.len(), |i: int| prefs[i] + d[i])
        }
    }
}

proof fn lemma_fits_96(n: int, s: int)
    requires
        0 <= n <= usize::MAX,
        0 <= s <= n * 0xFFFF_FFFF,
    ensures
        s < 0x1_0000_0000_0000_0000_0000_0000,
{
    assert(n * 0xFFFF_FFFF < 0x1_0000_0000_0000_0000_0000_0000) by (nonlinear_arith)
        requires
            0 <= n <= usize::MAX,
    ;
}

/// Resolves the extent of each slot when the slots share `target` pixels.
pub fn resolve_extents(ranges: &Vec<ValueRange>, weights: &Vec<u32>, target: u32) -> (r: Vec<u32>)
    requires
        ranges.len() == weights.len(),
    ensures
        r@.len() == ranges@.len(),
        as_ints(r@) == resolve(ranges@, weights@, target as int),
{
    let n = ranges.len();
    let ghost prefs = preferred_of(ranges@);
    let ghost mins = min_of(ranges@);
    let ghost maxs = max_of(ranges@);
    let mut total_preferred: u128 = 0;
    let mut total_min: u128 = 0;
    let mut total_max: u128 = 0;
    let mut i: usize = 0;
    while i < n
        invariant
            i <= n == ranges.len(),
            prefs == preferred_of(ranges@),
            mins == min_of(ranges@),
            maxs == max_of(ranges@),
            total_preferred == total(prefs.take(i as int)),
            total_min == total(mins.take(i as int)),
            total_max == total(maxs.take(i as int)),
            total_preferred <= i * 0xFFFF_FFFF,
            total_min <= i * 0xFFFF_FFFF,
            total_max <= i * 0xFFFF_FFFF,
        decreases n - i,
    {
        proof {
            lemma_total_take_step(prefs, i as int);
            lemma_total_take_step(mins, i as int);
            lemma_total_take_step(maxs, i as int);
        }
        total_preferred = total_preferred + ranges[i].preferred_value as u128;
        total_min = total_min + ranges[i].min_value as u128;
        total_max = total_max + ranges[i].max_value as u128;
        i = i + 1;
    }
    proof {
        assert(prefs.take(n as int) =~= prefs);
        assert(mins.take(n as int) =~= mins);
        assert(maxs.take(n as int) =~= maxs);
        lemma_fits_96(n as int, total_preferred as int);
    }
    let t = target as u128;
    let mut r: Vec<u32> = Vec::new();
    if t == total_preferred {
        let mut i: usize = 0;
        while i < n
            invariant
                i <= n == ranges.len(),
                prefs == preferred_of(ranges@),
                r@.len() == i,
                forall|k: int| 0 <= k < i ==> r@[k] == prefs[k],
            decreases n - i,
        {
            r.push(ranges[i].preferred_value);
            i = i + 1;
        }
        assert(as_ints(r@) =~= prefs);
    } else if t < total_preferred {
        if total_min >= t {
            let mut i: usize = 0;
            while i < n
                invariant
                    i <= n == ranges.len(),
                    mins == min_of(ranges@),
                    r@.len() == i,
                    forall|k: int| 0 <= k < i ==> r@[k] == mins[k],
                decreases n - i,
            {
                r.push(ranges[i].min_value);
                i = i + 1;
            }
            assert(as_ints(r@) =~= mins);
        } else {
            let ghost room = shrink_room(ranges@);
            let mut limits: Vec<u32> = Vec::new();
            let mut i: usize = 0;
            while i < n
                invariant
                    i <= n == ranges.len(),
                    room == shrink_room(ranges@),
                    limits@.len() == i,
                    forall|k: int| 0 <= k < i ==> limits@[k] == room[k],
                decreases n - i,
            {
                let v = ranges[i];
                limits.push(
                    if v.min_value <= v.preferred_value {
                        v.preferred_value - v.min_value
                    } else {
                        0
                    },
                );
                i = i + 1;
            }
            assert(as_ints(limits@) =~= room);
            let d = distribute(&limits, weights, total_preferred - t);
            proof {
                let z = Seq::new(room.len(), |k: int| 0);
                assert(within_limits(z, room, weights@));
                lemma_distribute(z, room, weights@, (total_preferred - t) as int);
            }
            let mut i: usize = 0;
            while i < n
                invariant
                    i <= n == ranges.len() == d.len(),
                    prefs == preferred_of(ranges@),
                    room == shrink_room(ranges@),
                    within_limits(as_ints(d@), room, weights@),
                    r@.len() == i,
                    forall|k: int| 0 <= k < i ==> r@[k] == prefs[k] - as_ints(d@)[k],
                decreases n - i,
            {
                assert(as_ints(d@)[i as int] <= room[i as int]);
                r.push(ranges[i].preferred_value - d[i]);
                i = i + 1;
            }
            assert(as_ints(r@) =~= Seq::new(n as nat, |k: int| prefs[k] - as_ints(d@)[k]));
        }
    } else {
        if total_max <= t {
            let mut i: usize = 0;
            while i < n
                invariant
                    i <= n == ranges.len(),
                    maxs == max_of(ranges@),
                    r@.len() == i,
                    forall|k: int| 0 <= k < i ==> r@[k] == maxs[k],
                decreases n - i,
            {
                r.push(ranges[i].max_value);
                i = i + 1;
            }
            assert(as_ints(r@) =~= maxs);
        } else {
            let ghost room = grow_room(ranges@);
            let mut limits: Vec<u32> = Vec::new();
            let mut i: usize = 0;
            while i < n
                invariant
                    i <= n == ranges.len(),
                    room == grow_room(ranges@),
                    limits@.len() == i,
                    forall|k: int| 0 <= k < i ==> limits@[k] == room[k],
                decreases n - i,
            {
                let v = ranges[i];
                limits.push(
                    if v.preferred_value <= v.max_value {
                        v.max_value - v.preferred_value
                    } else {
                        0
                    },
                );
                i = i + 1;
            }
            assert(as_ints(limits@) =~= room);
            let d = distribute(&limits, weights, t - total_preferred);
            proof {
                let z = Seq::new(room.len(), |k: int| 0);
                assert(within_limits(z, room, weights@));
                lemma_distribute(z, room, weights@, (t - total_preferred) as int);
            }
            let mut i: usize = 0;
            while i < n
                invariant
                    i <= n == ranges.len() == d.len(),
                    prefs == preferred_of(ranges@),
                    room == grow_room(ranges@),
                    within_limits(as_ints(d@), room, weights@),
                    r@.len() == i,
                    forall|k: int| 0 <= k < i ==> r@[k] == prefs[k] + as_ints(d@)[k],
                decreases n - i,
            {
                assert(as_ints(d@)[i as int] <= room[i as int]);
                r.push(ranges[i].preferred_value + d[i]);
                i = i + 1;
            }
            assert(as_ints(r@) =~= Seq::new(n as nat, |k: int| prefs[k] + as_ints(d@)[k]));
        }
    }
    r
}

/// Distributing from nothing, with every weighted slot able to take the
/// budget, absorbs exactly the budget; slots of weight zero absorb nothing.
proof fn lemma_distribution(limits: Seq<int>, weights: Seq<u32>, budget: int)
    requires
        limits.len() == weights.len(),
        forall|i: int| 0 <= i < limits.len() ==> 0 <= #[trigger] limits[i],
        0 <= budget,
    ensures
        within_limits(distribution(limits, weights, budget), limits, weights),
        budget <= capacity(limits, weights) ==> total(distribution(limits, weights, budget))
            == budget,
{
    let z = Seq::new(limits.len(), |k: int| 0);
    lemma_total_bounds(z, 0);
    lemma_distribute(z, limits, weights, budget);
}

/// Where every slot is weighted and its range well ordered, the resolved
/// extents add up to exactly the target whenever the target lies between the
/// total of the minimums and the total of the maximums; below that range every
/// slot resolves to its minimum, above it to its maximum.
pub proof fn lemma_resolve_total(ranges: Seq<ValueRange>, weights: Seq<u32>, target: int)
    requires
        ranges.len() == weights.len(),
        forall|i: int| 0 <= i < ranges.len() ==> (#[trigger] ranges[i]).well_ordered(),
        forall|i: int| 0 <= i < weights.len() ==> #[trigger] weights[i] > 0,
        0 <= target,
    ensures
        total(min_of(ranges)) <= target <= total(max_of(ranges)) ==> total(
            resolve(ranges, weights, target),
        ) == target,
        target < total(min_of(ranges)) ==> resolve(ranges, weights, target) == min_of(ranges),
        target > total(max_of(ranges)) ==> resolve(ranges, weights, target) == max_of(ranges),
{
    let prefs = preferred_of(ranges);
    let mins = min_of(ranges);
    let maxs = max_of(ranges);
    let sroom = shrink_room(ranges);
    let groom = grow_room(ranges);
    let p = total(prefs);
    lemma_total_pointwise(mins, sroom, prefs);
    lemma_total_pointwise(prefs, groom, maxs);
    lemma_total_bounds(sroom, u32::MAX as int);
    lemma_total_bounds(groom, u32::MAX as int);
    assert(Seq::new(sroom.len(), |i: int| if weights[i] > 0 { sroom[i] } else { 0 }) =~= sroom);
    assert(Seq::new(groom.len(), |i: int| if weights[i] > 0 { groom[i] } else { 0 }) =~= groom);
    if total(mins) <= target <= total(maxs) {
        let res = resolve(ranges, weights, target);
        if target < p && total(mins) < target {
            let d = distribution(sroom, weights, p - target);
            lemma_distribution(sroom, weights, p - target);
            lemma_total_pointwise(res, d, prefs);
        } else if target > p && total(maxs) > target {
            let d = distribution(groom, weights, target - p);
            lemma_distribution(groom, weights, target - p);
            lemma_total_pointwise(prefs, d, res);
        }
    }
}

/// A slot of weight zero resolves to its preferred extent, whatever the target,
/// unless the target forces every slot to its minimum or to its maximum.
pub proof fn lemma_unweighted_keeps_preferred(
    ranges: Seq<ValueRange>,
    weights: Seq<u32>,
    target: int,
    i: int,
)
    requires
        ranges.len() == weights.len(),
        0 <= i < ranges.len(),
        weights[i] == 0,
        target < total(preferred_of(ranges)) ==> total(min_of(ranges)) < target,
        target > total(preferred_of(ranges)) ==> target < total(max_of(ranges)),
    ensures
        resolve(ranges, weights, target)[i] == ranges[i].preferred_value,
{
    let p = total(preferred_of(ranges));
    if target < p {
        lemma_distribution(shrink_room(ranges), weights, p - target);
    } else if target > p {
        lemma_distribution(grow_room(ranges), weights, target - p);
    }
}

} // verus!
