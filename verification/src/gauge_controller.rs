//! Gauge controller: gauge weights that decay by a slope each period, with
//! slope changes scheduled per gauge, and the owner's gauge registry.
//!
//! As in the voting escrow, each function is a step of the contract over the
//! values it reads from its store.
use vstd::prelude::*;
use crate::math::{Decimal, rounded_checked_mul, rounded_mul, rounded_mul_defined, rounded_mul_round_up_overflows};

verus! {

/// Seconds in one day.
pub const DAY: u64 = 86_400;

/// Seconds in one week: the length of a period.
pub const WEEK: u64 = 604_800;

/// Periods a vote must wait before it counts.
pub const VOTE_DELAY: u64 = 2;

/// The errors the gauge controller answers with.
#[derive(Clone, Copy, Debug, PartialEq, Eq, Structural)]
pub enum ContractError {
    /// An arithmetic overflow.
    Overflow,
    Unauthorized,
    GaugeAlreadyExist,
    GaugeNotFound,
    TimestampError,
    NotImplement,
}

/// A gauge's weight: its bias decays by its slope every period.
#[derive(Clone, Copy, Debug, PartialEq, Eq, Structural)]
pub struct GaugeWeight {
    pub bias: u128,
    pub slope: Decimal,
}

/// A gauge weight stored at a period.
#[derive(Clone, Copy, Debug, PartialEq, Eq, Structural)]
pub struct GaugeCheckpoint {
    pub period: u64,
    pub weight: GaugeWeight,
}

/// A slope change scheduled for a gauge at a period.
#[derive(Clone, Copy, Debug, PartialEq, Eq, Structural)]
pub struct GaugeSlopeChange {
    pub period: u64,
    pub slope: Decimal,
}

/// The owner's view of a gauge: when its weight was last set.
#[derive(Clone, Copy, Debug, PartialEq, Eq, Structural)]
pub struct GaugeInfo {
    pub last_vote_period: u64,
}

pub open spec fn spec_get_period(seconds: u64) -> u64 {
    seconds / WEEK
}

/// The number of whole periods in `seconds`.
pub fn get_period(seconds: u64) -> (period: u64)
    ensures
        period == spec_get_period(seconds),
{
    seconds / WEEK
}

/// `weight` after `dt` periods at its slope, with the slope then lowered by
/// `slope_change` (never below zero); `None` where the decay overflows.
pub open spec fn decayed_weight(weight: GaugeWeight, dt: u64, slope_change: Decimal) -> Option<GaugeWeight> {
    match rounded_mul(weight.slope, dt as int) {
        None => None,
        Some(shift) => Some(
            GaugeWeight {
                bias: (if weight.bias >= shift { weight.bias - shift } else { 0 }) as u128,
                slope: Decimal {
                    atomics: (if weight.slope.atomics > slope_change.atomics {
                        weight.slope.atomics - slope_change.atomics
                    } else {
                        0
                    }) as u128,
                },
            },
        ),
    }
}

/// `weight` after `dt` periods: the bias drops by the slope times `dt`
/// (rounded, never below zero) and the slope by `slope_change` (never below
/// zero).
pub fn calc_new_weight(weight: GaugeWeight, dt: u64, slope_change: Decimal) -> (r: Result<GaugeWeight, ContractError>)
    requires
        !rounded_mul_round_up_overflows(weight.slope, dt as int),
    ensures
        match r {
            Ok(w) => decayed_weight(weight, dt, slope_change) == Some(w),
            Err(e) => decayed_weight(weight, dt, slope_change) is None && e == ContractError::Overflow,
        },
{
    let slope = weight.slope;
    let shift = match rounded_checked_mul(slope, dt as u128) {
        Ok(v) => v,
        Err(_) => {
            return Err(ContractError::Overflow);
        },
    };
    Ok(GaugeWeight {
        bias: if weight.bias >= shift { weight.bias - shift } else { 0 },
        slope: if slope.atomics > slope_change.atomics {
            slope.sub(slope_change)
        } else {
            Decimal::zero()
        },
    })
}

/// The scheduled changes lie after `from`, each after the one before.
pub open spec fn changes_ascending_after(from: u64, cs: Seq<GaugeSlopeChange>) -> bool {
    &&& forall|i: int| 0 <= i < cs.len() ==> from < #[trigger] cs[i].period
    &&& forall|i: int, j: int| 0 <= i < j < cs.len() ==> cs[i].period < cs[j].period
}

/// No decay of the fold overflows when rounding up.
pub open spec fn fold_defined(weight: GaugeWeight, from: u64, cs: Seq<GaugeSlopeChange>) -> bool
    decreases cs.len(),
{
    cs.len() == 0 || (fold_defined(weight, from, cs.drop_last()) && match fold_changes(
        weight,
        from,
        cs.drop_last(),
    ) {
        Some(w) => !rounded_mul_round_up_overflows(
            w.slope,
            cs.last().period - last_period(from, cs.drop_last()),
        ),
        None => true,
    })
}

/// The period of the last of the changes `cs`, or `from` where there are none.
pub open spec fn last_period(from: u64, cs: Seq<GaugeSlopeChange>) -> u64 {
    if cs.len() == 0 { from } else { cs.last().period }
}

/// `weight`, stored at `from`, carried through the scheduled changes `cs` in
/// order: at each change it decays by the periods since the one before and
/// its slope drops by the change. `None` where a decay overflows.
pub open spec fn fold_changes(weight: GaugeWeight, from: u64, cs: Seq<GaugeSlopeChange>) -> Option<GaugeWeight>
    decreases cs.len(),
{
    if cs.len() == 0 {
        Some(weight)
    } else {
        match fold_changes(weight, from, cs.drop_last()) {
            None => None,
            Some(w) => decayed_weight(
                w,
                (cs.last().period - last_period(from, cs.drop_last())) as u64,
                cs.last().slope,
            ),
        }
    }
}

proof fn lemma_fold_prefix(weight: GaugeWeight, from: u64, cs: Seq<GaugeSlopeChange>, i: int)
    requires
        fold_defined(weight, from, cs),
        0 <= i <= cs.len(),
    ensures
        fold_defined(weight, from, cs.take(i)),
    decreases cs.len(),
{
    if i == cs.len() {
        assert(cs.take(i) =~= cs);
    } else {
        lemma_fold_prefix(weight, from, cs.drop_last(), i);
        assert(cs.drop_last().take(i) =~= cs.take(i));
    }
}

/// With no scheduled change the weight is left as it is; with one change
/// the weight decays over the periods from its checkpoint to the change, and
/// its slope then drops by the change.
pub proof fn lemma_fold_single_change(weight: GaugeWeight, from: u64, c: GaugeSlopeChange)
    requires
        from <= c.period,
    ensures
        fold_changes(weight, from, Seq::empty()) == Some(weight),
        fold_changes(weight, from, seq![c]) == decayed_weight(weight, (c.period - from) as u64, c.slope),
{
    assert(seq![c].drop_last() =~= Seq::<GaugeSlopeChange>::empty());
}

/// Carrying a weight through the scheduled changes in two goes gives the
/// same weight as in one: through the first `k` changes, then from the
/// period of the `k`-th change (the checkpoint for `k == 0`) through the
/// rest. So each change decays the weight only over the periods since the
/// change before it.
pub proof fn lemma_fold_split(weight: GaugeWeight, from: u64, cs: Seq<GaugeSlopeChange>, k: int)
    requires
        0 <= k <= cs.len(),
        fold_changes(weight, from, cs.take(k)) is Some,
    ensures
        fold_changes(weight, from, cs) == fold_changes(
            fold_changes(weight, from, cs.take(k)).unwrap(),
            last_period(from, cs.take(k)),
            cs.skip(k),
        ),
    decreases cs.len(),
{
    let wk = fold_changes(weight, from, cs.take(k)).unwrap();
    let pk = last_period(from, cs.take(k));
    if k == cs.len() {
        assert(cs.take(k) =~= cs);
        assert(cs.skip(k) =~= Seq::<GaugeSlopeChange>::empty());
    } else {
        let cs0 = cs.drop_last();
        assert(cs0.take(k) =~= cs.take(k));
        lemma_fold_split(weight, from, cs0, k);
        let rest = cs.skip(k);
        assert(rest.drop_last() =~= cs0.skip(k));
        assert(rest.last() == cs.last());
        if k == cs.len() - 1 {
            assert(cs.take(k) =~= cs0);
            assert(cs0.skip(k) =~= Seq::<GaugeSlopeChange>::empty());
        } else {
            assert(cs0.skip(k).last() == cs0.last());
        }
        assert(last_period(pk, rest.drop_last()) == last_period(from, cs0));
    }
}

/// Carries `weight` from period `from` through the changes `changes`;
/// returns the weights stored at the changes' periods and the last weight.
fn fold_weight(weight: GaugeWeight, from: u64, changes: &Vec<GaugeSlopeChange>) -> (r: Result<
    (Vec<GaugeCheckpoint>, GaugeWeight),
    ContractError,
>)
    requires
        changes_ascending_after(from, changes@),
        fold_defined(weight, from, changes@),
    ensures
        match r {
            Ok((ws, w)) => {
                &&& fold_changes(weight, from, changes@) == Some(w)
                &&& ws@.len() == changes@.len()
                &&& forall|i: int|
                    0 <= i < changes@.len() ==> #[trigger] ws@[i] == (GaugeCheckpoint {
                        period: changes@[i].period,
                        weight: fold_changes(weight, from, changes@.take(i + 1)).unwrap(),
                    })
            },
            Err(e) => fold_changes(weight, from, changes@) is None && e == ContractError::Overflow,
        },
{
    let mut writes: Vec<GaugeCheckpoint> = Vec::new();
    let mut w = weight;
    let mut old_period = from;
    let mut i: usize = 0;
    while i < changes.len()
        invariant
            i <= changes.len(),
            changes_ascending_after(from, changes@),
            fold_defined(weight, from, changes@),
            fold_changes(weight, from, changes@.take(i as int)) == Some(w),
            old_period == last_period(from, changes@.take(i as int)),
            writes@.len() == i,
            forall|j: int|
                0 <= j < i ==> #[trigger] writes@[j] == (GaugeCheckpoint {
                    period: changes@[j].period,
                    weight: fold_changes(weight, from, changes@.take(j + 1)).unwrap(),
                }),
        decreases changes.len() - i,
    {
        let c = changes[i];
        proof {
            lemma_fold_prefix(weight, from, changes@, i + 1);
            assert(changes@.take(i + 1).drop_last() =~= changes@.take(i as int));
            if i > 0 {
                assert(old_period == changes@[i - 1].period);
            }
        }
        let dt = c.period - old_period;
        match calc_new_weight(w, dt, c.slope) {
            Ok(nw) => {
                w = nw;
            },
            Err(e) => {
                proof {
                    lemma_fold_none_extends(weight, from, changes@, i as int + 1);
                }
                return Err(e);
            },
        }
        old_period = c.period;
        writes.push(GaugeCheckpoint { period: c.period, weight: w });
        i = i + 1;
    }
    proof {
        assert(changes@.take(changes@.len() as int) =~= changes@);
    }
    Ok((writes, w))
}

/// Once the fold fails on a prefix it fails on every longer sequence.
proof fn lemma_fold_none_extends(weight: GaugeWeight, from: u64, cs: Seq<GaugeSlopeChange>, i: int)
    requires
        0 <= i <= cs.len(),
        fold_changes(weight, from, cs.take(i)) is None,
    ensures
        fold_changes(weight, from, cs) is None,
    decreases cs.len() - i,
{
    if i == cs.len() {
        assert(cs.take(i) =~= cs);
    } else {
        assert(cs.take(i + 1).drop_last() =~= cs.take(i));
        lemma_fold_none_extends_step(weight, from, cs.take(i + 1));
        lemma_fold_none_extends(weight, from, cs, i + 1);
    }
}

proof fn lemma_fold_none_extends_step(weight: GaugeWeight, from: u64, cs: Seq<GaugeSlopeChange>)
    requires
        cs.len() > 0,
        fold_changes(weight, from, cs.drop_last()) is None,
    ensures
        fold_changes(weight, from, cs) is None,
{
}


/// The weights a fold of `cs` from `weight` at `from` stores, one at each
/// change's period.
pub open spec fn fold_writes(weight: GaugeWeight, from: u64, cs: Seq<GaugeSlopeChange>) -> Seq<GaugeCheckpoint> {
    Seq::new(
        cs.len(),
        |i: int| GaugeCheckpoint { period: cs[i].period, weight: fold_changes(weight, from, cs.take(i + 1)).unwrap() },
    )
}

/// The weight of a gauge at time `time`, from its last checkpoint at or
/// before that period and the scheduled changes after the checkpoint and up
/// to the period.
pub open spec fn gauge_weight_at_spec(
    latest: Option<GaugeCheckpoint>,
    time: u64,
    cs: Seq<GaugeSlopeChange>,
) -> Result<u128, ContractError> {
    let period = spec_get_period(time);
    match latest {
        None => Err(ContractError::GaugeNotFound),
        Some(c) => if c.period == period {
            Ok(c.weight.bias)
        } else {
            match fold_changes(c.weight, c.period, cs) {
                None => Err(ContractError::Overflow),
                Some(w) => {
                    let dt = (period - last_period(c.period, cs)) as u64;
                    if dt > 0 {
                        match decayed_weight(w, dt, Decimal { atomics: 0 }) {
                            None => Err(ContractError::Overflow),
                            Some(w2) => Ok(w2.bias),
                        }
                    } else {
                        Ok(w.bias)
                    }
                },
            }
        },
    }
}

/// The changes lie after the checkpoint, in order, up to `period`, and no
/// decay overflows when rounding up.
pub open spec fn gauge_fold_defined(c: GaugeCheckpoint, period: u64, cs: Seq<GaugeSlopeChange>) -> bool {
    &&& c.period <= period
    &&& changes_ascending_after(c.period, cs)
    &&& forall|i: int| 0 <= i < cs.len() ==> #[trigger] cs[i].period <= period
    &&& fold_defined(c.weight, c.period, cs)
    &&& fold_changes(c.weight, c.period, cs) matches Some(w) ==> !rounded_mul_round_up_overflows(
        w.slope,
        period - last_period(c.period, cs),
    )
}

/// Whether a gauge's weight can be carried from its checkpoint `c` to
/// `period` through `changes`: `gauge_fold_defined`, tested.
pub fn gauge_fold_is_defined(c: GaugeCheckpoint, period: u64, changes: &Vec<GaugeSlopeChange>) -> (b: bool)
    ensures
        b == gauge_fold_defined(c, period, changes@),
{
    if c.period > period {
        return false;
    }
    let mut w: Option<GaugeWeight> = Some(c.weight);
    let mut old_period = c.period;
    let mut i: usize = 0;
    while i < changes.len()
        invariant
            i <= changes.len(),
            c.period <= period,
            changes_ascending_after(c.period, changes@.take(i as int)),
            forall|j: int| 0 <= j < i ==> #[trigger] changes@[j].period <= period,
            fold_defined(c.weight, c.period, changes@.take(i as int)),
            fold_changes(c.weight, c.period, changes@.take(i as int)) == w,
            old_period == last_period(c.period, changes@.take(i as int)),
            c.period <= old_period <= period,
        decreases changes.len() - i,
    {
        let ch = changes[i];
        proof {
            assert(changes@.take(i + 1).drop_last() =~= changes@.take(i as int));
            assert(changes@.take(i + 1).last() == ch);
            if i > 0 {
                assert(old_period == changes@[i - 1].period);
            }
        }
        if ch.period <= old_period || ch.period > period {
            proof {
                if gauge_fold_defined(c, period, changes@) {
                    if i > 0 {
                        assert(changes@[i - 1].period < changes@[i as int].period);
                    } else {
                        assert(c.period < changes@[0].period);
                    }
                }
            }
            return false;
        }
        let dt = ch.period - old_period;
        match w {
            Some(x) => {
                if !rounded_mul_defined(x.slope, dt as u128) {
                    proof {
                        if gauge_fold_defined(c, period, changes@) {
                            lemma_fold_prefix(c.weight, c.period, changes@, i + 1);
                        }
                    }
                    return false;
                }
                w = match calc_new_weight(x, dt, ch.slope) {
                    Ok(nw) => Some(nw),
                    Err(_) => None,
                };
            },
            None => {},
        }
        proof {
            assert forall|j: int, k: int| 0 <= j < k < i + 1 implies (#[trigger] changes@.take(i + 1)[j]).period
                < (#[trigger] changes@.take(i + 1)[k]).period by {
                if k == i {
                    if j < i - 1 {
                        assert(changes@.take(i as int)[j].period < changes@.take(i as int)[i - 1].period);
                    }
                } else {
                    assert(changes@.take(i as int)[j].period < changes@.take(i as int)[k].period);
                }
            }
            assert forall|j: int| 0 <= j < i + 1 implies c.period < #[trigger] changes@.take(i + 1)[j].period by {
                if j < i {
                    assert(c.period < changes@.take(i as int)[j].period);
                }
            }
        }
        old_period = ch.period;
        i = i + 1;
    }
    proof {
        assert(changes@.take(changes@.len() as int) =~= changes@);
    }
    match w {
        Some(x) => rounded_mul_defined(x.slope, (period - old_period) as u128),
        None => true,
    }
}

/// Whether a gauge's weight at `time` can be taken:
/// `gauge_history_defined`, tested.
pub fn gauge_history_is_defined(g: &GaugeHistory, time: u64) -> (b: bool)
    ensures
        b == gauge_history_defined(*g, time),
{
    match g.latest {
        None => true,
        Some(c) => c.period == get_period(time) || gauge_fold_is_defined(c, get_period(time), &g.changes),
    }
}

/// Whether the total weight of the gauges at `time` can be taken: every
/// gauge's weight can, and no partial sum leaves 128 bits.
pub fn total_weight_is_defined(gauges: &Vec<GaugeHistory>, time: u64) -> (b: bool)
    ensures
        b == ((forall|i: int| 0 <= i < gauges@.len() ==> gauge_history_defined(#[trigger] gauges@[i], time))
            && (forall|k: int|
            0 <= k <= gauges@.len() ==> (total_weight_spec(#[trigger] gauges@.take(k), time) matches Ok(s) ==> s
                <= u128::MAX))),
{
    let mut i: usize = 0;
    while i < gauges.len()
        invariant
            i <= gauges.len(),
            forall|j: int| 0 <= j < i ==> gauge_history_defined(#[trigger] gauges@[j], time),
        decreases gauges.len() - i,
    {
        if !gauge_history_is_defined(&gauges[i], time) {
            return false;
        }
        i = i + 1;
    }
    let mut total: u128 = 0;
    let mut i: usize = 0;
    while i < gauges.len()
        invariant
            i <= gauges.len(),
            forall|j: int| 0 <= j < gauges@.len() ==> gauge_history_defined(#[trigger] gauges@[j], time),
            forall|k: int|
                0 <= k <= i ==> (total_weight_spec(#[trigger] gauges@.take(k), time) matches Ok(s) ==> s <= u128::MAX),
            total_weight_spec(gauges@.take(i as int), time) == Ok::<int, ContractError>(total as int),
        decreases gauges.len() - i,
    {
        let g = &gauges[i];
        proof {
            assert(gauges@.take(i + 1).drop_last() =~= gauges@.take(i as int));
            assert(gauges@.take(i + 1).last() == gauges@[i as int]);
            assert(gauge_history_defined(gauges@[i as int], time));
        }
        match get_gauge_weight_at(g.latest, time, &g.changes) {
            Err(e) => {
                proof {
                    assert forall|k: int| 0 <= k <= gauges@.len() implies (total_weight_spec(
                        #[trigger] gauges@.take(k),
                        time,
                    ) matches Ok(s) ==> s <= u128::MAX) by {
                        if k > i {
                            assert(gauges@.take(k).take(i + 1) =~= gauges@.take(i + 1));
                            lemma_total_weight_err_extends(gauges@.take(k), time, i + 1, e);
                        }
                    }
                }
                return true;
            },
            Ok(w) => {
                if total > u128::MAX - w {
                    proof {
                        assert(total_weight_spec(gauges@.take(i + 1), time) == Ok::<int, ContractError>(total + w));
                    }
                    return false;
                }
                total = total + w;
            },
        }
        i = i + 1;
    }
    true
}

/// The weight of a gauge at time `time`: its last checkpoint at or before
/// that period, carried through the scheduled slope changes since then and
/// decayed to the period.
pub fn get_gauge_weight_at(
    latest: Option<GaugeCheckpoint>,
    time: u64,
    changes: &Vec<GaugeSlopeChange>,
) -> (r: Result<u128, ContractError>)
    requires
        latest matches Some(c) ==> (c.period != spec_get_period(time) ==> gauge_fold_defined(
            c,
            spec_get_period(time),
            changes@,
        )),
    ensures
        r == gauge_weight_at_spec(latest, time, changes@),
{
    let period = get_period(time);
    match latest {
        None => Err(ContractError::GaugeNotFound),
        Some(c) => {
            if c.period == period {
                return Ok(c.weight.bias);
            }
            let (_, w) = fold_weight(c.weight, c.period, changes)?;
            let old_period = if changes.len() == 0 {
                c.period
            } else {
                changes[changes.len() - 1].period
            };
            proof {
                if changes@.len() > 0 {
                    assert(changes@[changes@.len() - 1].period <= period);
                }
            }
            let dt = period - old_period;
            if dt > 0 {
                let w2 = calc_new_weight(w, dt, Decimal::zero())?;
                Ok(w2.bias)
            } else {
                Ok(w.bias)
            }
        },
    }
}

/// A gauge's history as the contract reads it for one query: its last
/// checkpoint at or before the period and the scheduled changes after it.
pub struct GaugeHistory {
    pub latest: Option<GaugeCheckpoint>,
    pub changes: Vec<GaugeSlopeChange>,
}

/// The sum of the weights of the gauges `gs` at `time`, or the first error.
pub open spec fn total_weight_spec(gs: Seq<GaugeHistory>, time: u64) -> Result<int, ContractError>
    decreases gs.len(),
{
    if gs.len() == 0 {
        Ok(0)
    } else {
        match total_weight_spec(gs.drop_last(), time) {
            Err(e) => Err(e),
            Ok(sum) => match gauge_weight_at_spec(gs.last().latest, time, gs.last().changes@) {
                Err(e) => Err(e),
                Ok(w) => Ok(sum + w),
            },
        }
    }
}

pub open spec fn gauge_history_defined(g: GaugeHistory, time: u64) -> bool {
    g.latest matches Some(c) ==> (c.period != spec_get_period(time) ==> gauge_fold_defined(
        c,
        spec_get_period(time),
        g.changes@,
    ))
}

/// The total weight of all gauges at `time`: the sum of their weights there.
pub fn get_total_weight_at(gauges: &Vec<GaugeHistory>, time: u64) -> (r: Result<u128, ContractError>)
    requires
        forall|i: int| 0 <= i < gauges@.len() ==> gauge_history_defined(#[trigger] gauges@[i], time),
        forall|k: int|
            0 <= k <= gauges@.len() ==> (total_weight_spec(#[trigger] gauges@.take(k), time) matches Ok(s)
                ==> s <= u128::MAX),
    ensures
        match r {
            Ok(v) => total_weight_spec(gauges@, time) == Ok::<int, ContractError>(v as int),
            Err(e) => total_weight_spec(gauges@, time) == Err::<int, ContractError>(e),
        },
{
    let mut total: u128 = 0;
    let mut i: usize = 0;
    while i < gauges.len()
        invariant
            i <= gauges.len(),
            forall|j: int| 0 <= j < gauges@.len() ==> gauge_history_defined(#[trigger] gauges@[j], time),
            forall|k: int|
                0 <= k <= gauges@.len() ==> (total_weight_spec(#[trigger] gauges@.take(k), time) matches Ok(s)
                    ==> s <= u128::MAX),
            total_weight_spec(gauges@.take(i as int), time) == Ok::<int, ContractError>(total as int),
        decreases gauges.len() - i,
    {
        let g = &gauges[i];
        proof {
            assert(gauges@.take(i + 1).drop_last() =~= gauges@.take(i as int));
            assert(gauges@.take(i + 1).last() == gauges@[i as int]);
            assert(gauge_history_defined(gauges@[i as int], time));
        }
        let w = match get_gauge_weight_at(g.latest, time, &g.changes) {
            Ok(w) => w,
            Err(e) => {
                proof {
                    lemma_total_weight_err_extends(gauges@, time, i as int + 1, e);
                }
                return Err(e);
            },
        };
        proof {
            assert(total_weight_spec(gauges@.take(i + 1), time) == Ok::<int, ContractError>(total + w));
        }
        total = total + w;
        i = i + 1;
    }
    proof {
        assert(gauges@.take(gauges@.len() as int) =~= gauges@);
    }
    Ok(total)
}

/// Once the sum fails on a prefix it fails with the same error on the
/// whole sequence.
proof fn lemma_total_weight_err_extends(gs: Seq<GaugeHistory>, time: u64, i: int, e: ContractError)
    requires
        0 <= i <= gs.len(),
        total_weight_spec(gs.take(i), time) == Err::<int, ContractError>(e),
    ensures
        total_weight_spec(gs, time) == Err::<int, ContractError>(e),
    decreases gs.len() - i,
{
    if i == gs.len() {
        assert(gs.take(i) =~= gs);
    } else {
        assert(gs.take(i + 1).drop_last() =~= gs.take(i));
        lemma_total_weight_err_extends(gs, time, i + 1, e);
    }
}

/// What a gauge checkpoint stores: the weights at the periods of the
/// scheduled changes since the last checkpoint and, past the last of them,
/// the weight decayed to the new period.
pub open spec fn checkpoint_gauge_spec(
    latest: Option<GaugeCheckpoint>,
    new_period: u64,
    cs: Seq<GaugeSlopeChange>,
) -> Result<Seq<GaugeCheckpoint>, ContractError> {
    match latest {
        None => Err(ContractError::GaugeNotFound),
        Some(c) => if new_period < c.period {
            Err(ContractError::TimestampError)
        } else if new_period == c.period {
            Ok(Seq::empty())
        } else {
            match fold_changes(c.weight, c.period, cs) {
                None => Err(ContractError::Overflow),
                Some(w) => {
                    let writes = fold_writes(c.weight, c.period, cs);
                    let dt = (new_period - last_period(c.period, cs)) as u64;
                    if dt > 0 {
                        match decayed_weight(w, dt, Decimal { atomics: 0 }) {
                            None => Err(ContractError::Overflow),
                            Some(w2) => Ok(writes.push(GaugeCheckpoint { period: new_period, weight: w2 })),
                        }
                    } else {
                        Ok(writes)
                    }
                },
            }
        },
    }
}

/// Fills a gauge's history up to `new_period`: from the last checkpoint, the
/// weight is carried through each scheduled slope change since then (stored
/// at the change's period) and decayed to `new_period` (stored there).
pub fn checkpoint_gauge(
    latest: Option<GaugeCheckpoint>,
    new_period: u64,
    changes: &Vec<GaugeSlopeChange>,
) -> (r: Result<Vec<GaugeCheckpoint>, ContractError>)
    requires
        latest matches Some(c) ==> (c.period < new_period ==> gauge_fold_defined(c, new_period, changes@)),
    ensures
        match r {
            Ok(ws) => checkpoint_gauge_spec(latest, new_period, changes@) == Ok::<
                Seq<GaugeCheckpoint>,
                ContractError,
            >(ws@),
            Err(e) => checkpoint_gauge_spec(latest, new_period, changes@) == Err::<
                Seq<GaugeCheckpoint>,
                ContractError,
            >(e),
        },
{
    match latest {
        None => Err(ContractError::GaugeNotFound),
        Some(c) => {
            if new_period < c.period {
                return Err(ContractError::TimestampError);
            }
            if new_period == c.period {
                return Ok(Vec::new());
            }
            let (mut writes, w) = fold_weight(c.weight, c.period, changes)?;
            let old_period = if changes.len() == 0 {
                c.period
            } else {
                changes[changes.len() - 1].period
            };
            proof {
                if changes@.len() > 0 {
                    assert(changes@[changes@.len() - 1].period <= new_period);
                }
                assert(writes@ =~= fold_writes(c.weight, c.period, changes@));
            }
            let dt = new_period - old_period;
            if dt > 0 {
                let w2 = calc_new_weight(w, dt, Decimal::zero())?;
                writes.push(GaugeCheckpoint { period: new_period, weight: w2 });
            }
            Ok(writes)
        },
    }
}


/// Filling a gauge's history and querying its weight agree: the last weight
/// a checkpoint up to a period stores is the weight a query at that period
/// answers.
pub proof fn lemma_checkpoint_agrees_with_weight_query(c: GaugeCheckpoint, time: u64, cs: Seq<GaugeSlopeChange>)
    requires
        c.period < spec_get_period(time),
        changes_ascending_after(c.period, cs),
        forall|i: int| 0 <= i < cs.len() ==> #[trigger] cs[i].period <= spec_get_period(time),
    ensures
        checkpoint_gauge_spec(Some(c), spec_get_period(time), cs) matches Ok(ws) ==> ws.len() > 0
            && gauge_weight_at_spec(Some(c), time, cs) == Ok::<u128, ContractError>(ws.last().weight.bias),
{
    if cs.len() > 0 {
        assert(cs.take(cs.len() as int) =~= cs);
    }
}

/// The stored slope change after `slope` is cancelled from it: it drops by
/// `slope`, never below zero, and is removed once it reaches zero.
pub open spec fn cancelled_change(existing: Option<Decimal>, slope: Decimal) -> Option<Decimal> {
    if slope.atomics == 0 {
        existing
    } else {
        match existing {
            None => None,
            Some(prev) => if prev.atomics > slope.atomics {
                Some(Decimal { atomics: (prev.atomics - slope.atomics) as u128 })
            } else {
                None
            },
        }
    }
}

/// Cancels a scheduled slope change of `slope` at a gauge's period whose
/// stored change is `existing`; returns what is stored there afterwards.
pub fn cancel_scheduled_slope_change(existing: Option<Decimal>, slope: Decimal) -> (r: Option<Decimal>)
    ensures
        r == cancelled_change(existing, slope),
{
    if slope.is_zero() {
        return existing;
    }
    match existing {
        Some(prev) => {
            let new_slope = if prev.atomics > slope.atomics {
                prev.sub(slope)
            } else {
                Decimal::zero()
            };
            if new_slope.is_zero() {
                None
            } else {
                Some(new_slope)
            }
        },
        None => None,
    }
}

/// The stored slope change after `slope` is scheduled on top of it.
pub open spec fn scheduled_change(existing: Option<Decimal>, slope: Decimal) -> Option<Decimal> {
    if slope.atomics == 0 {
        existing
    } else {
        match existing {
            Some(prev) => Some(Decimal { atomics: (prev.atomics + slope.atomics) as u128 }),
            None => Some(slope),
        }
    }
}

/// Schedules a slope change of `slope` at a gauge's period whose stored
/// change is `existing`; returns what is stored there afterwards.
pub fn schedule_slope_change(existing: Option<Decimal>, slope: Decimal) -> (r: Option<Decimal>)
    requires
        existing matches Some(prev) ==> prev.atomics + slope.atomics <= u128::MAX,
    ensures
        r == scheduled_change(existing, slope),
{
    if slope.is_zero() {
        return existing;
    }
    match existing {
        Some(pslope) => Some(pslope.add(slope)),
        None => Some(slope),
    }
}

/// Cancelling a slope change just scheduled at a gauge's period restores the
/// stored change there (stored changes are never zero).
pub proof fn lemma_gauge_cancel_undoes_schedule(existing: Option<Decimal>, slope: Decimal)
    requires
        existing matches Some(d) ==> d.atomics != 0 && d.atomics + slope.atomics <= u128::MAX,
    ensures
        cancelled_change(scheduled_change(existing, slope), slope) == existing,
{
}

/// A gauge exists where it has a checkpoint.
pub fn check_if_exists(latest: Option<GaugeCheckpoint>) -> (b: bool)
    ensures
        b == latest is Some,
{
    match latest {
        Some(_) => true,
        None => false,
    }
}

/// The period the owner's weight changes and votes are recorded at.
pub open spec fn spec_vote_period(seconds: u64) -> int {
    (seconds / WEEK + WEEK) * WEEK
}

/// The period the owner's weight changes and votes are recorded at (a
/// period number shifted by a week and scaled by it).
pub fn vote_period(seconds: u64) -> (p: u64)
    requires
        spec_vote_period(seconds) <= u64::MAX,
    ensures
        p == spec_vote_period(seconds),
{
    (seconds / WEEK + WEEK) * WEEK
}

/// Whether the vote period of `seconds` fits 64 bits.
pub fn vote_period_is_defined(seconds: u64) -> (b: bool)
    ensures
        b == (spec_vote_period(seconds) <= u64::MAX),
{
    let p = seconds / WEEK + WEEK;
    proof {
        assert(p * WEEK <= u64::MAX <==> p <= u64::MAX / WEEK) by (nonlinear_arith)
            requires WEEK > 0;
    }
    p <= u64::MAX / WEEK
}

/// What adding a gauge writes: its address at index `gauge_id`, the new
/// gauge count, its weight and its info at `period`.
#[derive(Clone, Copy, Debug, PartialEq, Eq, Structural)]
pub struct AddedGauge {
    pub gauge_id: u64,
    pub gauge_count: u64,
    pub period: u64,
    pub weight: GaugeWeight,
    pub info: GaugeInfo,
}

/// Adds a gauge with a fixed `weight`: only the owner may, and only for a
/// gauge that does not exist yet. The gauge takes the next index and its
/// weight (with no slope) is recorded at the vote period of `time`.
pub fn add_gauge(
    owner: &String,
    sender: &String,
    exists: bool,
    gauge_count: u64,
    time: u64,
    weight: u128,
) -> (r: Result<AddedGauge, ContractError>)
    requires
        gauge_count < u64::MAX,
        spec_vote_period(time) <= u64::MAX,
    ensures
        owner@ != sender@ ==> r == Err::<AddedGauge, ContractError>(ContractError::Unauthorized),
        owner@ == sender@ && exists ==> r == Err::<AddedGauge, ContractError>(ContractError::GaugeAlreadyExist),
        owner@ == sender@ && !exists ==> r == Ok::<AddedGauge, ContractError>(AddedGauge {
            gauge_id: gauge_count,
            gauge_count: (gauge_count + 1) as u64,
            period: spec_vote_period(time) as u64,
            weight: GaugeWeight { bias: weight, slope: Decimal { atomics: 0 } },
            info: GaugeInfo { last_vote_period: spec_vote_period(time) as u64 },
        }),
{
    if !owner.eq(sender) {
        return Err(ContractError::Unauthorized);
    }
    if exists {
        return Err(ContractError::GaugeAlreadyExist);
    }
    let period = vote_period(time);
    Ok(AddedGauge {
        gauge_id: gauge_count,
        gauge_count: gauge_count + 1,
        period,
        weight: GaugeWeight { bias: weight, slope: Decimal::zero() },
        info: GaugeInfo { last_vote_period: period },
    })
}

/// Changes the weight of an existing gauge: only the owner may. The new
/// weight keeps the slope of the weight recorded at the gauge's last vote
/// period (`old_weight`) and is recorded at the vote period of `time`.
pub fn change_gauge_weight(
    owner: &String,
    sender: &String,
    info: Option<GaugeInfo>,
    old_weight: GaugeWeight,
    time: u64,
    weight: u128,
) -> (r: Result<(u64, GaugeWeight, GaugeInfo), ContractError>)
    requires
        spec_vote_period(time) <= u64::MAX,
    ensures
        owner@ != sender@ ==> r == Err::<(u64, GaugeWeight, GaugeInfo), ContractError>(ContractError::Unauthorized),
        owner@ == sender@ && info is None ==> r == Err::<(u64, GaugeWeight, GaugeInfo), ContractError>(
            ContractError::GaugeNotFound,
        ),
        owner@ == sender@ && info is Some ==> r == Ok::<(u64, GaugeWeight, GaugeInfo), ContractError>(
            (
                spec_vote_period(time) as u64,
                GaugeWeight { bias: weight, slope: old_weight.slope },
                GaugeInfo { last_vote_period: spec_vote_period(time) as u64 },
            ),
        ),
{
    if !owner.eq(sender) {
        return Err(ContractError::Unauthorized);
    }
    match info {
        Some(_) => {
            let new_period = vote_period(time);
            Ok((
                new_period,
                GaugeWeight { bias: weight, slope: old_weight.slope },
                GaugeInfo { last_vote_period: new_period },
            ))
        },
        None => Err(ContractError::GaugeNotFound),
    }
}

/// The weight a vote records for a gauge at the vote period of `time`: the
/// voted weight as bias, with the fixed slope of a vote.
pub fn vote_for_gauge_weight(time: u64, user_weight: u128) -> (r: (u64, GaugeWeight, GaugeInfo))
    requires
        spec_vote_period(time) <= u64::MAX,
    ensures
        r == (
            spec_vote_period(time) as u64,
            GaugeWeight { bias: user_weight, slope: Decimal { atomics: (234 * crate::math::DECIMAL_FRACTIONAL) as u128 } },
            GaugeInfo { last_vote_period: spec_vote_period(time) as u64 },
        ),
{
    let period = vote_period(time);
    (
        period,
        GaugeWeight { bias: user_weight, slope: Decimal::raw(234 * crate::math::DECIMAL_FRACTIONAL) },
        GaugeInfo { last_vote_period: period },
    )
}

/// A gauge index is valid where it is below the gauge count.
pub fn query_gauge_addr(gauge_id: u64, gauge_count: u64) -> (r: Result<u64, ContractError>)
    ensures
        r == if gauge_id >= gauge_count {
            Err::<u64, ContractError>(ContractError::GaugeNotFound)
        } else {
            Ok(gauge_id)
        },
{
    if gauge_id >= gauge_count {
        return Err(ContractError::GaugeNotFound);
    }
    Ok(gauge_id)
}

/// The total weight query is not implemented.
pub fn query_total_weight() -> (r: Result<u128, ContractError>)
    ensures
        r == Err::<u128, ContractError>(ContractError::NotImplement),
{
    Err(ContractError::NotImplement)
}

/// The relative weight query is not implemented.
pub fn query_relative_weight(addr: &String, time: u128) -> (r: Result<Decimal, ContractError>)
    ensures
        r == Err::<Decimal, ContractError>(ContractError::NotImplement),
{
    Err(ContractError::NotImplement)
}

/// The queries the gauge controller sends to the voting escrow.
#[derive(Clone, Debug, PartialEq, Eq)]
pub enum VotingEscrowContractQueryMsg {
    LastUserSlope { user: String },
    UserUnlockPeriod { user: String },
}

/// The voting escrow's answer to a user unlock period query.
#[derive(Clone, Copy, Debug, PartialEq, Eq, Structural)]
pub struct UserUnlockPeriodResponse {
    pub unlock_period: u64,
}

/// The voting escrow's answer to a last user slope query.
#[derive(Clone, Copy, Debug, PartialEq, Eq, Structural)]
pub struct UserSlopResponse {
    pub slope: Decimal,
}

/// The gauge controller's settings.
#[derive(Clone, Debug, PartialEq, Eq)]
pub struct Config {
    pub owner: String,
    pub anchor_token: String,
    pub anchor_voting_escrow: String,
}

/// A user's vote for a gauge.
#[derive(Clone, Copy, Debug, PartialEq, Eq, Structural)]
pub struct UserVote {
    pub slope: Decimal,
    pub vote_period: u64,
    pub unlock_period: u64,
}

/// The gauge controller's queries.
#[derive(Clone, Debug, PartialEq, Eq)]
pub enum QueryMsg {
    GaugeCount {},
    GaugeWeight { gauge_addr: String },
    GaugeWeightAt { gauge_addr: String, time: u64 },
    TotalWeight {},
    TotalWeightAt { time: u64 },
    GaugeRelativeWeight { gauge_addr: String },
    GaugeRelativeWeightAt { gauge_addr: String, time: u64 },
    GaugeAddr { gauge_id: u64 },
    AllGaugeAddr {},
    Config {},
}

#[derive(Clone, Copy, Debug, PartialEq, Eq, Structural)]
pub struct GaugeWeightResponse {
    pub gauge_weight: u128,
}

#[derive(Clone, Copy, Debug, PartialEq, Eq, Structural)]
pub struct GaugeWeightAtResponse {
    pub gauge_weight_at: u128,
}

#[derive(Clone, Copy, Debug, PartialEq, Eq, Structural)]
pub struct TotalWeightResponse {
    pub total_weight: u128,
}

#[derive(Clone, Copy, Debug, PartialEq, Eq, Structural)]
pub struct TotalWeightAtResponse {
    pub total_weight_at: u128,
}

#[derive(Clone, Copy, Debug, PartialEq, Eq, Structural)]
pub struct GaugeRelativeWeightResponse {
    pub gauge_relative_weight: Decimal,
}

#[derive(Clone, Copy, Debug, PartialEq, Eq, Structural)]
pub struct GaugeRelativeWeightAtResponse {
    pub gauge_relative_weight_at: Decimal,
}

#[derive(Clone, Copy, Debug, PartialEq, Eq, Structural)]
pub struct GaugeCountResponse {
    pub gauge_count: u64,
}

#[derive(Clone, Debug, PartialEq, Eq)]
pub struct GaugeAddrResponse {
    pub gauge_addr: String,
}

#[derive(Clone, Debug, PartialEq, Eq)]
pub struct AllGaugeAddrResponse {
    pub all_gauge_addr: Vec<String>,
}

#[derive(Clone, Debug, PartialEq, Eq)]
pub struct ConfigResponse {
    pub owner: String,
    pub anchor_token: String,
    pub anchor_voting_escrow: String,
}

} // verus!
