//! Linear release schedules: an amount released evenly between a start and
//! an end (blocks for staking rewards, seconds for vesting).
use vstd::prelude::*;
use crate::math::{Decimal, DECIMAL_FRACTIONAL, checked_mul_div, lemma_floor_split, mul_decimal, mul_decimal_floor, ratio_atomics};

verus! {

/// `amount` tokens released evenly from `start` to `end`.
#[derive(Clone, Copy, Debug, PartialEq, Eq, Structural)]
pub struct Schedule {
    pub start: u64,
    pub end: u64,
    pub amount: u128,
}

pub open spec fn min_u64(a: u64, b: u64) -> u64 {
    if a <= b { a } else { b }
}

pub open spec fn max_u64(a: u64, b: u64) -> u64 {
    if a >= b { a } else { b }
}

/// The schedule releases nothing between `last_distributed` and `height`.
pub open spec fn schedule_skipped(s: Schedule, last_distributed: u64, height: u64) -> bool {
    s.start > height || s.end < last_distributed
}

/// The blocks of the schedule that passed between `last_distributed` and `height`.
pub open spec fn passed_units(s: Schedule, last_distributed: u64, height: u64) -> int {
    min_u64(s.end, height) - max_u64(s.start, last_distributed)
}

/// The schedule's reward per block, truncated to 18 decimals.
pub open spec fn per_unit(s: Schedule) -> Decimal {
    Decimal { atomics: ratio_atomics(s.amount as int, s.end - s.start) as u128 }
}

/// What the schedule releases between `last_distributed` and `height`.
pub open spec fn schedule_release(s: Schedule, last_distributed: u64, height: u64) -> int {
    if schedule_skipped(s, last_distributed, height) {
        0
    } else {
        mul_decimal_floor(passed_units(s, last_distributed, height), per_unit(s))
    }
}

/// What the schedules `ss` release between `last_distributed` and `height`.
pub open spec fn total_release(ss: Seq<Schedule>, last_distributed: u64, height: u64) -> int
    decreases ss.len(),
{
    if ss.len() == 0 {
        0
    } else {
        total_release(ss.drop_last(), last_distributed, height) + schedule_release(
            ss.last(),
            last_distributed,
            height,
        )
    }
}

/// The release of a schedule that runs does not panic.
pub open spec fn schedule_release_defined(s: Schedule, last_distributed: u64, height: u64) -> bool {
    !schedule_skipped(s, last_distributed, height) ==> {
        &&& s.start < s.end
        &&& max_u64(s.start, last_distributed) <= min_u64(s.end, height)
        &&& ratio_atomics(s.amount as int, s.end - s.start) <= u128::MAX
        &&& mul_decimal_floor(passed_units(s, last_distributed, height), per_unit(s)) <= u128::MAX
    }
}

/// What the schedules `ss` release between `from` and `to` does not panic.
pub open spec fn total_released_defined(ss: Seq<Schedule>, from: u64, to: u64) -> bool {
    &&& forall|i: int| 0 <= i < ss.len() ==> schedule_release_defined(#[trigger] ss[i], from, to)
    &&& forall|k: int| 0 <= k <= ss.len() ==> #[trigger] total_release(ss.take(k), from, to) <= u128::MAX
}

/// The amount the schedules release between `from` and `to`: for each
/// schedule that runs in between, its amount per unit (truncated to 18
/// decimals) times the units of it that passed, truncated.
pub fn total_released(ss: &Vec<Schedule>, from: u64, to: u64) -> (r: u128)
    requires
        total_released_defined(ss@, from, to),
    ensures
        r == total_release(ss@, from, to),
{
    let mut released: u128 = 0;
    let mut i: usize = 0;
    while i < ss.len()
        invariant
            i <= ss@.len(),
            total_released_defined(ss@, from, to),
            released == total_release(ss@.take(i as int), from, to),
        decreases ss@.len() - i,
    {
        let s = ss[i];
        proof {
            assert(ss@.take(i + 1).drop_last() =~= ss@.take(i as int));
            assert(schedule_release_defined(ss@[i as int], from, to));
            assert(total_release(ss@.take(i + 1), from, to) <= u128::MAX);
        }
        if !(s.start > to || s.end < from) {
            let hi = if s.end <= to { s.end } else { to };
            let lo = if s.start >= from { s.start } else { from };
            let passed = hi - lo;
            let per_unit = Decimal::from_ratio(s.amount, (s.end - s.start) as u128);
            released = released + mul_decimal(passed as u128, per_unit);
        }
        i = i + 1;
    }
    proof {
        assert(ss@.take(ss@.len() as int) =~= ss@);
    }
    released
}

/// Whether the release of the schedules `ss` between `from` and `to` can be
/// taken: `total_released_defined`, tested.
pub fn total_released_is_defined(ss: &Vec<Schedule>, from: u64, to: u64) -> (b: bool)
    ensures
        b == total_released_defined(ss@, from, to),
{
    let mut released: u128 = 0;
    let mut i: usize = 0;
    while i < ss.len()
        invariant
            i <= ss@.len(),
            forall|j: int| 0 <= j < i ==> schedule_release_defined(#[trigger] ss@[j], from, to),
            forall|k: int| 0 <= k <= i ==> #[trigger] total_release(ss@.take(k), from, to) <= u128::MAX,
            released == total_release(ss@.take(i as int), from, to),
        decreases ss@.len() - i,
    {
        let s = ss[i];
        proof {
            assert(ss@.take(i + 1).drop_last() =~= ss@.take(i as int));
        }
        if !(s.start > to || s.end < from) {
            let hi = if s.end <= to { s.end } else { to };
            let lo = if s.start >= from { s.start } else { from };
            if !(s.start < s.end && lo <= hi) {
                return false;
            }
            let per = match checked_mul_div(s.amount, DECIMAL_FRACTIONAL, (s.end - s.start) as u128) {
                Some(v) => v,
                None => {
                    return false;
                },
            };
            let part = match checked_mul_div((hi - lo) as u128, per, DECIMAL_FRACTIONAL) {
                Some(v) => v,
                None => {
                    return false;
                },
            };
            if released > u128::MAX - part {
                proof {
                    assert(total_release(ss@.take(i + 1), from, to) > u128::MAX);
                }
                return false;
            }
            released = released + part;
        }
        i = i + 1;
    }
    proof {
        assert(ss@.take(ss@.len() as int) =~= ss@);
    }
    true
}

/// Nothing is released between a point in time and itself.
pub proof fn lemma_no_release_over_empty_range(ss: Seq<Schedule>, height: u64)
    ensures
        total_release(ss, height, height) == 0,
    decreases ss.len(),
{
    if ss.len() > 0 {
        lemma_no_release_over_empty_range(ss.drop_last(), height);
        let s = ss.last();
        if !schedule_skipped(s, height, height) {
            assert(passed_units(s, height, height) == 0);
            assert(0 * per_unit(s).atomics == 0) by (nonlinear_arith);
        }
    }
}

/// A schedule never releases more than its amount over any range.
pub proof fn lemma_schedule_release_bounded(s: Schedule, from: u64, to: u64)
    requires
        schedule_release_defined(s, from, to),
        from <= to,
    ensures
        0 <= schedule_release(s, from, to) <= s.amount,
{
    if !schedule_skipped(s, from, to) {
        let p = s.end - s.start;
        let passed = passed_units(s, from, to);
        let dd = crate::math::DECIMAL_FRACTIONAL as int;
        let per = per_unit(s).atomics as int;
        assert(0 <= passed <= p);
        assert(s.amount * dd >= 0) by (nonlinear_arith)
            requires dd > 0, s.amount >= 0;
        assert(per == (s.amount * dd) / p);
        assert(per * p <= s.amount * dd) by {
            vstd::arithmetic::div_mod::lemma_fundamental_div_mod(s.amount * dd, p);
            assert(p * ((s.amount * dd) / p) == per * p) by (nonlinear_arith)
                requires per == (s.amount * dd) / p;
        }
        assert(passed * per <= s.amount * dd) by (nonlinear_arith)
            requires 0 <= passed <= p, per >= 0, per * p <= s.amount * dd;
        assert(passed * per >= 0) by (nonlinear_arith) requires passed >= 0, per >= 0;
        vstd::arithmetic::div_mod::lemma_div_is_ordered(passed * per, s.amount * dd, dd);
        vstd::arithmetic::div_mod::lemma_div_multiples_vanish(s.amount as int, dd);
        vstd::arithmetic::div_mod::lemma_div_pos_is_pos(passed * per, dd);
        assert(s.amount * dd == dd * s.amount) by (nonlinear_arith);
    }
}

/// The schedules never release more, together, than the sum of their amounts.
pub open spec fn total_amount(ss: Seq<Schedule>) -> int
    decreases ss.len(),
{
    if ss.len() == 0 { 0 } else { total_amount(ss.drop_last()) + ss.last().amount }
}

/// Over any range the schedules release at most the sum of their amounts.
pub proof fn lemma_total_release_bounded(ss: Seq<Schedule>, from: u64, to: u64)
    requires
        from <= to,
        forall|i: int| 0 <= i < ss.len() ==> schedule_release_defined(#[trigger] ss[i], from, to),
    ensures
        0 <= total_release(ss, from, to) <= total_amount(ss),
    decreases ss.len(),
{
    if ss.len() > 0 {
        assert forall|i: int| 0 <= i < ss.drop_last().len() implies schedule_release_defined(
            #[trigger] ss.drop_last()[i],
            from,
            to,
        ) by {
            assert(ss.drop_last()[i] == ss[i]);
        }
        lemma_total_release_bounded(ss.drop_last(), from, to);
        assert(schedule_release_defined(ss[ss.len() - 1], from, to));
        lemma_schedule_release_bounded(ss.last(), from, to);
    }
}


/// The units of a schedule that run in a range add up over two adjacent
/// ranges.
proof fn lemma_passed_units_additive(s: Schedule, from: u64, mid: u64, to: u64)
    requires
        s.start < s.end,
        from <= mid <= to,
    ensures
        (if schedule_skipped(s, from, mid) { 0 } else { passed_units(s, from, mid) }) + (if schedule_skipped(
            s,
            mid,
            to,
        ) {
            0
        } else {
            passed_units(s, mid, to)
        }) == (if schedule_skipped(s, from, to) { 0 } else { passed_units(s, from, to) }),
        !schedule_skipped(s, from, mid) ==> passed_units(s, from, mid) >= 0,
        !schedule_skipped(s, mid, to) ==> passed_units(s, mid, to) >= 0,
{
}


/// A schedule released in two steps, over adjacent ranges, never releases
/// more than over the whole range at once.
pub proof fn lemma_schedule_release_split(s: Schedule, from: u64, mid: u64, to: u64)
    requires
        s.start < s.end,
        from <= mid <= to,
    ensures
        schedule_release(s, from, mid) + schedule_release(s, mid, to) <= schedule_release(s, from, to),
{
    lemma_passed_units_additive(s, from, mid, to);
    let x = per_unit(s).atomics as int;
    let dd = crate::math::DECIMAL_FRACTIONAL as int;
    let a = if schedule_skipped(s, from, mid) { 0 } else { passed_units(s, from, mid) };
    let b = if schedule_skipped(s, mid, to) { 0 } else { passed_units(s, mid, to) };
    lemma_floor_split(a, b, x, dd);
    assert(0 * x == 0) by (nonlinear_arith);
}

/// Schedules released in two steps, over adjacent ranges, never release more
/// than over the whole range at once: claiming often never pays more than
/// claiming once.
pub proof fn lemma_total_release_split(ss: Seq<Schedule>, from: u64, mid: u64, to: u64)
    requires
        forall|i: int| 0 <= i < ss.len() ==> (#[trigger] ss[i]).start < ss[i].end,
        from <= mid <= to,
    ensures
        total_release(ss, from, mid) + total_release(ss, mid, to) <= total_release(ss, from, to),
    decreases ss.len(),
{
    if ss.len() > 0 {
        assert forall|i: int| 0 <= i < ss.drop_last().len() implies (#[trigger] ss.drop_last()[i]).start
            < ss.drop_last()[i].end by {
            assert(ss.drop_last()[i] == ss[i]);
        }
        lemma_total_release_split(ss.drop_last(), from, mid, to);
        assert(ss[ss.len() - 1].start < ss[ss.len() - 1].end);
        lemma_schedule_release_split(ss.last(), from, mid, to);
    }
}

} // verus!
