//! Voting escrow (veANC): locks, voting power checkpoints, and the
//! scheduled slope changes that make voting power decay week by week.
//!
//! Every function here is a step of the contract: it takes the values the
//! contract reads from its store (the last checkpoint, the lock, the
//! scheduled slope changes of a range of periods) and returns the values it
//! writes back, or the error it answers with.
use vstd::prelude::*;
use crate::math::{
    checked_mul_div, lemma_rounded_product_is_shifted_floor, lemma_rounded_product_monotone, mul_decimal,
    mul_decimal_floor, ratio_atomics, rounded_checked_mul, rounded_mul, rounded_mul_defined, rounded_mul_overflows,
    rounded_mul_round_up_overflows, rounded_product, scaled_product, Decimal, DECIMAL_FRACTIONAL, HALF_UNIT,
};

verus! {

/// Seconds in one week: the length of a period.
pub const WEEK: u64 = 604_800;

/// Seconds in one week: the shortest lock.
pub const MIN_LOCK_TIME: u64 = 604_800;

/// Seconds in 104 weeks (two years): the longest lock.
pub const MAX_LOCK_TIME: u64 = 62_899_200;

/// `get_period(MAX_LOCK_TIME)`: the number of periods of the longest lock.
pub const MAX_LOCK_PERIODS: u64 = 104;

/// The errors the voting escrow answers with.
#[derive(Clone, Copy, Debug, PartialEq, Eq, Structural)]
pub enum ContractError {
    Unauthorized,
    LockAlreadyExists,
    LockDoesntExist,
    LockTimeLimitsError,
    LockHasNotExpired,
    LockExpired,
    InsufficientStaked,
    /// No lock is stored for the user (a failed load of the lock).
    LockNotFound,
    /// A checkpoint was asked to start a history without an end period.
    CheckpointInitialization,
    /// A query for the lock of a user who never locked.
    UserLockNotFound,
    /// The address holds upper-case characters.
    AddressNotLowercase,
}

/// A point of a voting power history.
#[derive(Clone, Copy, Debug, PartialEq, Eq, Structural)]
pub struct Point {
    /// voting power at `start`
    pub power: u128,
    /// the period of the point
    pub start: u64,
    /// the period when the lock expires
    pub end: u64,
    /// voting power decay per period
    pub slope: Decimal,
}

/// A user's lock of ANC.
#[derive(Clone, Copy, Debug, PartialEq, Eq, Structural)]
pub struct Lock {
    /// the tokens deposited
    pub amount: u128,
    /// the period when the lock was created
    pub start: u64,
    /// the period when the lock expires
    pub end: u64,
    /// the last period when the lock's time was increased
    pub last_extend_lock_period: u64,
}

/// A slope change scheduled at a period.
#[derive(Clone, Copy, Debug, PartialEq, Eq, Structural)]
pub struct SlopeChange {
    pub period: u64,
    pub slope: Decimal,
}

/// The answer to a lock information query.
#[derive(Clone, Copy, Debug, PartialEq, Eq, Structural)]
pub struct LockInfoResponse {
    pub amount: u128,
    pub coefficient: Decimal,
    pub start: u64,
    pub end: u64,
}

pub open spec fn spec_get_period(time: u64) -> u64 {
    time / WEEK
}

/// The number of whole periods in `time` seconds.
pub fn get_period(time: u64) -> (period: u64)
    ensures
        period == spec_get_period(time),
{
    time / WEEK
}

pub open spec fn lock_time_within_limits(time: u64) -> bool {
    MIN_LOCK_TIME <= time <= MAX_LOCK_TIME
}

/// Checks that a lock time (in seconds) lies within the limits.
pub fn time_limits_check(time: u64) -> (r: Result<(), ContractError>)
    ensures
        r is Ok <==> lock_time_within_limits(time),
        r is Err ==> r == Err::<(), ContractError>(ContractError::LockTimeLimitsError),
{
    if !(MIN_LOCK_TIME <= time && time <= MAX_LOCK_TIME) {
        Err(ContractError::LockTimeLimitsError)
    } else {
        Ok(())
    }
}

/// The decay of `point` from its start to `period`: the rounded product
/// of the slope and the periods passed, or zero where it overflows.
pub open spec fn decay(point: Point, period: u64) -> int {
    match rounded_mul(point.slope, period - point.start) {
        Some(shift) => shift,
        None => 0,
    }
}

/// Voting power of `point` at `period`: `power - slope * (period - start)`,
/// never below zero.
pub open spec fn voting_power_at(point: Point, period: u64) -> int {
    if point.power >= decay(point, period) {
        point.power - decay(point, period)
    } else {
        0
    }
}

/// `calc_voting_power` is defined (does not panic) at `period`.
pub open spec fn voting_power_defined(point: Point, period: u64) -> bool {
    &&& point.start <= period
    &&& !rounded_mul_round_up_overflows(point.slope, period - point.start)
}

/// Voting power of `point` at `period`: `power - slope * (period - start)`,
/// where the product is rounded half up, and where an overflowing product
/// counts as no decay at all.
pub fn calc_voting_power(point: &Point, period: u64) -> (vp: u128)
    requires
        voting_power_defined(*point, period),
    ensures
        vp == voting_power_at(*point, period),
{
    let shift = match rounded_checked_mul(point.slope, (period - point.start) as u128) {
        Ok(v) => v,
        Err(_) => 0,
    };
    if point.power >= shift {
        point.power - shift
    } else {
        0
    }
}

/// The coefficient of a lock of `interval` periods, in atomics: one, plus
/// 1.5 times the fraction of the longest lock (truncated to 18 digits).
pub open spec fn coefficient_atomics(interval: u64) -> int {
    DECIMAL_FRACTIONAL + ratio_atomics(15 * interval, (MAX_LOCK_PERIODS * 10) as int)
}

/// Coefficient of a lock of `interval` periods: `1 + 1.5 * interval /
/// MAX_LOCK_PERIODS`, so no time gives 1 and the longest lock gives 2.5,
/// linearly in between.
pub fn calc_coefficient(interval: u64) -> (c: Decimal)
    ensures
        c.atomics == coefficient_atomics(interval),
{
    let n: u128 = 15 * (interval as u128);
    proof {
        assert(n * DECIMAL_FRACTIONAL <= 15 * u64::MAX * DECIMAL_FRACTIONAL) by (nonlinear_arith)
            requires n == 15 * interval, interval <= u64::MAX;
        assert((n * DECIMAL_FRACTIONAL) / 1040 <= (15 * u64::MAX * DECIMAL_FRACTIONAL) / 1040) by (nonlinear_arith)
            requires n * DECIMAL_FRACTIONAL <= 15 * u64::MAX * DECIMAL_FRACTIONAL;
    }
    Decimal::one().add(Decimal::from_ratio(n, (MAX_LOCK_PERIODS * 10) as u128))
}

/// The stored slope change of a period after a scheduled change of `slope`
/// is cancelled there; `None` stands for no stored change.
pub open spec fn cancelled_slope_change(
    existing: Option<Decimal>,
    last_slope_change: u64,
    slope: Decimal,
    period: u64,
) -> Option<Decimal> {
    match existing {
        Some(prev) => if period > last_slope_change {
            if prev.atomics == slope.atomics {
                None
            } else {
                Some(Decimal { atomics: (prev.atomics - slope.atomics) as u128 })
            }
        } else {
            existing
        },
        None => None,
    }
}

/// Cancelling is defined: a pending change is not smaller than the slope
/// cancelled from it.
pub open spec fn cancel_defined(
    existing: Option<Decimal>,
    last_slope_change: u64,
    slope: Decimal,
    period: u64,
) -> bool {
    existing matches Some(prev) ==> (period > last_slope_change ==> slope.atomics <= prev.atomics)
}

/// Cancels a scheduled slope change of `slope` at `period`, given the change
/// stored there (`existing`) and the last period at which slope changes were
/// applied. Changes in the past are left alone; a change that drops to zero
/// is removed. Returns what is stored at `period` afterwards.
pub fn cancel_scheduled_slope(
    existing: Option<Decimal>,
    last_slope_change: u64,
    slope: Decimal,
    period: u64,
) -> (r: Option<Decimal>)
    requires
        cancel_defined(existing, last_slope_change, slope, period),
    ensures
        r == cancelled_slope_change(existing, last_slope_change, slope, period),
{
    match existing {
        Some(prev) => {
            if period > last_slope_change {
                let new_slope = prev.sub(slope);
                if !new_slope.is_zero() {
                    Some(new_slope)
                } else {
                    None
                }
            } else {
                existing
            }
        },
        None => None,
    }
}

/// The stored slope change of a period after `slope` is scheduled there.
pub open spec fn scheduled_slope_change(existing: Option<Decimal>, slope: Decimal) -> Option<Decimal> {
    if slope.atomics == 0 {
        existing
    } else {
        match existing {
            Some(prev) => Some(Decimal { atomics: (prev.atomics + slope.atomics) as u128 }),
            None => Some(slope),
        }
    }
}

pub open spec fn schedule_defined(existing: Option<Decimal>, slope: Decimal) -> bool {
    existing matches Some(prev) ==> prev.atomics + slope.atomics <= u128::MAX
}

/// Schedules a slope change of `slope` at a period whose stored change is
/// `existing`; a zero slope schedules nothing. Returns what is stored there
/// afterwards.
pub fn schedule_slope_change(existing: Option<Decimal>, slope: Decimal) -> (r: Option<Decimal>)
    requires
        schedule_defined(existing, slope),
    ensures
        r == scheduled_slope_change(existing, slope),
{
    if !slope.is_zero() {
        match existing {
            Some(pslope) => Some(pslope.add(slope)),
            None => Some(slope),
        }
    } else {
        existing
    }
}


pub open spec fn coefficient(interval: u64) -> Decimal {
    Decimal { atomics: coefficient_atomics(interval) as u128 }
}

/// What a user checkpoint writes: the new point of the user's history at
/// the current period, the lock where it is saved again, the voting power
/// and slopes handed on to the total checkpoint, and the scheduled slope
/// change to cancel. The new point's slope is scheduled at its end.
#[derive(Clone, Copy, Debug, PartialEq, Eq, Structural)]
pub struct UserCheckpoint {
    pub point: Point,
    pub lock: Option<Lock>,
    pub add_voting_power: u128,
    pub old_slope: Decimal,
    pub cancel: Option<SlopeChange>,
}

pub open spec fn opt_or_zero(v: Option<u128>) -> u128 {
    match v {
        Some(a) => a,
        None => 0,
    }
}

/// The end period of a user checkpoint that continues `p`.
pub open spec fn continued_end(p: Point, new_end: Option<u64>) -> u64 {
    match new_end {
        Some(e) => e,
        None => p.end,
    }
}

/// The periods left until `end`, zero once it has passed.
pub open spec fn periods_left(end: u64, cur: u64) -> u64 {
    if end >= cur { (end - cur) as u64 } else { 0 }
}

/// A user checkpoint that continues `p` extends the lock's time: the lock
/// ends later than before and no amount is added.
pub open spec fn is_time_extension(p: Point, cur: u64, add: u128, new_end: Option<u64>) -> bool {
    &&& periods_left(continued_end(p, new_end), cur) != 0
    &&& continued_end(p, new_end) > p.end
    &&& add == 0
}

/// The user's voting power after a time extension: the whole lock at the
/// coefficient of the periods left.
pub open spec fn extended_power(l: Lock, dt: u64) -> int {
    mul_decimal_floor(l.amount as int, coefficient(dt))
}

/// The voting power a checkpoint that continues `p` adds to the user's
/// current power (when it does not extend the lock's time).
pub open spec fn added_power(add: u128, dt: u64) -> int {
    if dt != 0 { mul_decimal_floor(add as int, coefficient(dt)) } else { 0 }
}

/// The result of a user checkpoint at period `cur`.
pub open spec fn user_checkpoint_spec(
    cur: u64,
    last: Option<Point>,
    lock: Option<Lock>,
    add_amount: Option<u128>,
    new_end: Option<u64>,
) -> Result<UserCheckpoint, ContractError> {
    let add = opt_or_zero(add_amount);
    match last {
        Some(p) => {
            let end = continued_end(p, new_end);
            let dt = periods_left(end, cur);
            let current = voting_power_at(p, cur);
            if is_time_extension(p, cur, add, new_end) {
                match lock {
                    None => Err(ContractError::LockNotFound),
                    Some(l) => {
                        let new_vp = extended_power(l, dt);
                        let add_vp = if new_vp >= current { new_vp - current } else { 0 };
                        Ok(UserCheckpoint {
                            point: Point {
                                power: (current + add_vp) as u128,
                                start: cur,
                                end,
                                slope: Decimal { atomics: ratio_atomics(new_vp, dt as int) as u128 },
                            },
                            lock: Some(Lock { last_extend_lock_period: cur, ..l }),
                            add_voting_power: add_vp as u128,
                            old_slope: p.slope,
                            cancel: Some(SlopeChange { period: p.end, slope: p.slope }),
                        })
                    },
                }
            } else {
                let add_vp = added_power(add, dt);
                let slope = if dt != 0 { ratio_atomics(current + add_vp, dt as int) } else { 0 };
                Ok(UserCheckpoint {
                    point: Point {
                        power: (current + add_vp) as u128,
                        start: cur,
                        end,
                        slope: Decimal { atomics: slope as u128 },
                    },
                    lock: None,
                    add_voting_power: add_vp as u128,
                    old_slope: p.slope,
                    cancel: Some(SlopeChange { period: p.end, slope: p.slope }),
                })
            }
        },
        None => match new_end {
            None => Err(ContractError::CheckpointInitialization),
            Some(end) => {
                let dt = (end - cur) as u64;
                let add_vp = mul_decimal_floor(add as int, coefficient(dt));
                Ok(UserCheckpoint {
                    point: Point {
                        power: add_vp as u128,
                        start: cur,
                        end,
                        slope: Decimal { atomics: ratio_atomics(add_vp, dt as int) as u128 },
                    },
                    lock: None,
                    add_voting_power: add_vp as u128,
                    old_slope: Decimal { atomics: 0 },
                    cancel: None,
                })
            },
        },
    }
}

/// A user checkpoint at `cur` does not panic: every intermediate value fits.
pub open spec fn user_checkpoint_defined(
    cur: u64,
    last: Option<Point>,
    lock: Option<Lock>,
    add_amount: Option<u128>,
    new_end: Option<u64>,
) -> bool {
    let add = opt_or_zero(add_amount);
    match last {
        Some(p) => {
            let end = continued_end(p, new_end);
            let dt = periods_left(end, cur);
            let current = voting_power_at(p, cur);
            &&& voting_power_defined(p, cur)
            &&& if is_time_extension(p, cur, add, new_end) {
                lock matches Some(l) ==> {
                    &&& extended_power(l, dt) <= u128::MAX
                    &&& ratio_atomics(extended_power(l, dt), dt as int) <= u128::MAX
                }
            } else {
                &&& added_power(add, dt) <= u128::MAX
                &&& current + added_power(add, dt) <= u128::MAX
                &&& dt != 0 ==> ratio_atomics(current + added_power(add, dt), dt as int) <= u128::MAX
            }
        },
        None => new_end matches Some(end) ==> {
            &&& end > cur
            &&& mul_decimal_floor(add as int, coefficient((end - cur) as u64)) <= u128::MAX
            &&& ratio_atomics(mul_decimal_floor(add as int, coefficient((end - cur) as u64)), end - cur)
                <= u128::MAX
        },
    }
}

/// Checkpoints a user's voting power at period `cur`, from the user's last
/// checkpoint at or before `cur`: a time extension recomputes the power of
/// the whole lock at the new coefficient (and records the extension in the
/// lock), an added amount adds its power at the coefficient of the periods
/// left, and the slope spreads the power over the periods left. The first
/// checkpoint of a user needs the lock's end.
pub fn checkpoint(
    cur_period: u64,
    last_checkpoint: Option<Point>,
    lock: Option<Lock>,
    add_amount: Option<u128>,
    new_end: Option<u64>,
) -> (r: Result<UserCheckpoint, ContractError>)
    requires
        user_checkpoint_defined(cur_period, last_checkpoint, lock, add_amount, new_end),
    ensures
        r == user_checkpoint_spec(cur_period, last_checkpoint, lock, add_amount, new_end),
{
    let add_amount = match add_amount {
        Some(a) => a,
        None => 0,
    };
    match last_checkpoint {
        Some(point) => {
            let end = match new_end {
                Some(e) => e,
                None => point.end,
            };
            let dt = if end >= cur_period { end - cur_period } else { 0 };
            let current_power = calc_voting_power(&point, cur_period);
            let mut add_voting_power: u128 = 0;
            let mut new_lock: Option<Lock> = None;
            let mut new_slope = Decimal::zero();
            if dt != 0 {
                if end > point.end && add_amount == 0 {
                    let mut l = match lock {
                        Some(l) => l,
                        None => {
                            return Err(ContractError::LockNotFound);
                        },
                    };
                    let new_voting_power = mul_decimal(l.amount, calc_coefficient(dt));
                    add_voting_power = if new_voting_power >= current_power {
                        new_voting_power - current_power
                    } else {
                        0
                    };
                    l.last_extend_lock_period = cur_period;
                    new_lock = Some(l);
                    new_slope = Decimal::from_ratio(new_voting_power, dt as u128);
                } else {
                    add_voting_power = mul_decimal(add_amount, calc_coefficient(dt));
                    new_slope = Decimal::from_ratio(current_power + add_voting_power, dt as u128);
                }
            }
            Ok(UserCheckpoint {
                point: Point {
                    power: current_power + add_voting_power,
                    slope: new_slope,
                    start: cur_period,
                    end,
                },
                lock: new_lock,
                add_voting_power,
                old_slope: point.slope,
                cancel: Some(SlopeChange { period: point.end, slope: point.slope }),
            })
        },
        None => {
            let end = match new_end {
                Some(e) => e,
                None => {
                    return Err(ContractError::CheckpointInitialization);
                },
            };
            let dt = end - cur_period;
            let add_voting_power = mul_decimal(add_amount, calc_coefficient(dt));
            let slope = Decimal::from_ratio(add_voting_power, dt as u128);
            Ok(UserCheckpoint {
                point: Point { power: add_voting_power, slope, start: cur_period, end },
                lock: None,
                add_voting_power,
                old_slope: Decimal::zero(),
                cancel: None,
            })
        },
    }
}


/// The point `q` recalculated at the period of a scheduled change: its
/// voting power decays to that period and its slope drops by the change.
pub open spec fn apply_change(q: Point, c: SlopeChange) -> Point {
    Point {
        power: voting_power_at(q, c.period) as u128,
        start: c.period,
        slope: Decimal { atomics: (q.slope.atomics - c.slope.atomics) as u128 },
        end: q.end,
    }
}

/// Applying the change to `q` does not panic.
pub open spec fn apply_change_defined(q: Point, c: SlopeChange) -> bool {
    &&& voting_power_defined(q, c.period)
    &&& c.slope.atomics <= q.slope.atomics
}

/// `p` after the scheduled changes `cs`, applied in order.
pub open spec fn apply_changes(p: Point, cs: Seq<SlopeChange>) -> Point
    decreases cs.len(),
{
    if cs.len() == 0 {
        p
    } else {
        apply_change(apply_changes(p, cs.drop_last()), cs.last())
    }
}

/// Applying the changes `cs` to `p` in order does not panic.
pub open spec fn apply_changes_defined(p: Point, cs: Seq<SlopeChange>) -> bool
    decreases cs.len(),
{
    cs.len() == 0 || (apply_changes_defined(p, cs.drop_last()) && apply_change_defined(
        apply_changes(p, cs.drop_last()),
        cs.last(),
    ))
}

/// The points recalculated at the periods of the changes `cs`: the `i`-th
/// is `p` after the first `i + 1` changes.
pub open spec fn recalculated_points(p: Point, cs: Seq<SlopeChange>) -> Seq<Point> {
    Seq::new(cs.len(), |i: int| apply_changes(p, cs.take(i + 1)))
}

proof fn lemma_apply_changes_prefix_defined(p: Point, cs: Seq<SlopeChange>, i: int)
    requires
        apply_changes_defined(p, cs),
        0 <= i < cs.len(),
    ensures
        apply_changes_defined(p, cs.take(i)),
        apply_change_defined(apply_changes(p, cs.take(i)), cs[i]),
    decreases cs.len(),
{
    if i == cs.len() - 1 {
        assert(cs.take(i) =~= cs.drop_last());
    } else {
        lemma_apply_changes_prefix_defined(p, cs.drop_last(), i);
        assert(cs.drop_last().take(i) =~= cs.take(i));
    }
}

/// Recalculates `point` at each of the scheduled changes `changes`, in
/// order; returns the recalculated points and the last of them (`point`
/// itself where there are none).
fn recalculate(point: Point, changes: &Vec<SlopeChange>) -> (r: (Vec<Point>, Point))
    requires
        apply_changes_defined(point, changes@),
    ensures
        r.0@ == recalculated_points(point, changes@),
        r.1 == apply_changes(point, changes@),
{
    let mut points: Vec<Point> = Vec::new();
    let mut cur = point;
    let mut i: usize = 0;
    while i < changes.len()
        invariant
            i <= changes.len(),
            apply_changes_defined(point, changes@),
            cur == apply_changes(point, changes@.take(i as int)),
            points@ =~= Seq::new(i as nat, |j: int| apply_changes(point, changes@.take(j + 1))),
        decreases changes.len() - i,
    {
        let c = changes[i];
        proof {
            lemma_apply_changes_prefix_defined(point, changes@, i as int);
            assert(changes@.take(i + 1).drop_last() =~= changes@.take(i as int));
        }
        let vp = calc_voting_power(&cur, c.period);
        cur = Point { power: vp, start: c.period, slope: cur.slope.sub(c.slope), end: cur.end };
        points.push(cur);
        i = i + 1;
    }
    proof {
        assert(changes@.take(changes@.len() as int) =~= changes@);
    }
    (points, cur)
}

/// What a total checkpoint writes: the points recalculated at the periods
/// of the scheduled changes applied (each saved at its start), the new last
/// slope change period where it moves, and the total's point at the
/// current period.
#[derive(Debug, PartialEq, Eq)]
pub struct TotalCheckpoint {
    pub recalculated: Vec<Point>,
    pub last_slope_change: Option<u64>,
    pub point: Point,
}

/// The last period at which slope changes were applied (zero before any).
pub open spec fn last_change_or_zero(last_slope_change: Option<u64>) -> u64 {
    match last_slope_change {
        Some(v) => v,
        None => 0,
    }
}

/// The total's point at `cur` before the new voting power is added: `p`
/// after the scheduled changes since the last slope change, where that lies
/// before `cur`.
pub open spec fn total_base(p: Point, cur: u64, last_slope_change: Option<u64>, changes: Seq<SlopeChange>) -> Point {
    if last_change_or_zero(last_slope_change) < cur {
        apply_changes(p, changes)
    } else {
        p
    }
}

/// The total's new point at `cur`.
pub open spec fn total_point_spec(
    cur: u64,
    last: Option<Point>,
    last_slope_change: Option<u64>,
    changes: Seq<SlopeChange>,
    add_voting_power: Option<u128>,
    reduce_power: Option<u128>,
    old_slope: Decimal,
    new_slope: Decimal,
) -> Point {
    match last {
        Some(p) => {
            let base = total_base(p, cur, last_slope_change, changes);
            let raised = voting_power_at(base, cur) + opt_or_zero(add_voting_power);
            let reduce = opt_or_zero(reduce_power);
            Point {
                power: (if raised >= reduce { raised - reduce } else { 0 }) as u128,
                slope: Decimal {
                    atomics: (base.slope.atomics - old_slope.atomics + new_slope.atomics) as u128,
                },
                start: cur,
                end: base.end,
            }
        },
        None => Point { power: opt_or_zero(add_voting_power), slope: new_slope, start: cur, end: 0 },
    }
}

/// A total checkpoint does not panic.
pub open spec fn total_checkpoint_defined(
    cur: u64,
    last: Option<Point>,
    last_slope_change: Option<u64>,
    changes: Seq<SlopeChange>,
    add_voting_power: Option<u128>,
    old_slope: Decimal,
    new_slope: Decimal,
) -> bool {
    last matches Some(p) ==> {
        let base = total_base(p, cur, last_slope_change, changes);
        &&& last_change_or_zero(last_slope_change) < cur ==> apply_changes_defined(p, changes)
        &&& voting_power_defined(base, cur)
        &&& voting_power_at(base, cur) + opt_or_zero(add_voting_power) <= u128::MAX
        &&& old_slope.atomics <= base.slope.atomics
        &&& base.slope.atomics - old_slope.atomics + new_slope.atomics <= u128::MAX
    }
}

/// Checkpoints the total voting power at period `cur`, from the total's last
/// checkpoint at or before `cur`. Where slope changes were last applied
/// before `cur`, the scheduled changes since then (`changes`, in the order of
/// their periods) are applied one by one, each giving a recalculated point,
/// and `cur` becomes the last slope change period. The new point adds
/// `add_voting_power`, takes away `reduce_power` (never below zero), and
/// trades `old_slope` for `new_slope`.
pub fn checkpoint_total(
    cur_period: u64,
    last_checkpoint: Option<Point>,
    last_slope_change: Option<u64>,
    changes: &Vec<SlopeChange>,
    add_voting_power: Option<u128>,
    reduce_power: Option<u128>,
    old_slope: Decimal,
    new_slope: Decimal,
) -> (r: TotalCheckpoint)
    requires
        total_checkpoint_defined(
            cur_period,
            last_checkpoint,
            last_slope_change,
            changes@,
            add_voting_power,
            old_slope,
            new_slope,
        ),
    ensures
        r.point == total_point_spec(
            cur_period,
            last_checkpoint,
            last_slope_change,
            changes@,
            add_voting_power,
            reduce_power,
            old_slope,
            new_slope,
        ),
        r.recalculated@ == (match last_checkpoint {
            Some(p) => if last_change_or_zero(last_slope_change) < cur_period {
                recalculated_points(p, changes@)
            } else {
                Seq::empty()
            },
            None => Seq::empty(),
        }),
        r.last_slope_change == (if last_checkpoint is Some && last_change_or_zero(last_slope_change)
            < cur_period {
            Some(cur_period)
        } else {
            None::<u64>
        }),
        last_checkpoint matches Some(p) ==> r.point.slope.atomics + old_slope.atomics == total_base(
            p,
            cur_period,
            last_slope_change,
            changes@,
        ).slope.atomics + new_slope.atomics,
        last_checkpoint is None ==> r.point.slope == new_slope && r.point.power == opt_or_zero(add_voting_power),
{
    let add_voting_power = match add_voting_power {
        Some(a) => a,
        None => 0,
    };
    match last_checkpoint {
        Some(point) => {
            let last_change = match last_slope_change {
                Some(v) => v,
                None => 0,
            };
            let mut recalculated: Vec<Point> = Vec::new();
            let mut new_last_change: Option<u64> = None;
            let mut base = point;
            if last_change < cur_period {
                let (points, last_point) = recalculate(point, changes);
                recalculated = points;
                base = last_point;
                new_last_change = Some(cur_period);
            }
            let raised = calc_voting_power(&base, cur_period) + add_voting_power;
            let reduce = match reduce_power {
                Some(v) => v,
                None => 0,
            };
            let new_power = if raised >= reduce { raised - reduce } else { 0 };
            TotalCheckpoint {
                recalculated,
                last_slope_change: new_last_change,
                point: Point {
                    power: new_power,
                    slope: base.slope.sub(old_slope).add(new_slope),
                    start: cur_period,
                    end: base.end,
                },
            }
        },
        None => TotalCheckpoint {
            recalculated: Vec::new(),
            last_slope_change: None,
            point: Point { power: add_voting_power, slope: new_slope, start: cur_period, end: 0 },
        },
    }
}


/// A total checkpoint trades the user's old slope for the new one in the
/// total's slope, and adds the user's added power (less any reduction) to
/// the total's power at the current period: the total's new slope plus the
/// old slope is the slope it had plus the new slope, and its new power plus
/// the reduction is its power plus the added power (where the reduction
/// does not exceed that).
pub proof fn lemma_total_checkpoint_trades_slopes(
    cur: u64,
    p: Point,
    last_slope_change: Option<u64>,
    changes: Seq<SlopeChange>,
    add_voting_power: Option<u128>,
    reduce_power: Option<u128>,
    old_slope: Decimal,
    new_slope: Decimal,
)
    requires
        total_checkpoint_defined(cur, Some(p), last_slope_change, changes, add_voting_power, old_slope, new_slope),
    ensures
        ({
            let base = total_base(p, cur, last_slope_change, changes);
            let t = total_point_spec(
                cur,
                Some(p),
                last_slope_change,
                changes,
                add_voting_power,
                reduce_power,
                old_slope,
                new_slope,
            );
            &&& t.slope.atomics + old_slope.atomics == base.slope.atomics + new_slope.atomics
            &&& t.start == cur
            &&& t.end == base.end
            &&& opt_or_zero(reduce_power) <= voting_power_at(base, cur) + opt_or_zero(add_voting_power) ==> t.power
                + opt_or_zero(reduce_power) == voting_power_at(base, cur) + opt_or_zero(add_voting_power)
            &&& opt_or_zero(reduce_power) > voting_power_at(base, cur) + opt_or_zero(add_voting_power) ==> t.power == 0
        }),
{
}

/// The voting power in a history whose last point at or before `period` is
/// `last`: the point's power where it lies at `period`, its decayed power
/// otherwise, and zero where there is none.
pub open spec fn user_voting_power_spec(last: Option<Point>, period: u64) -> int {
    match last {
        Some(p) => if p.start == period { p.power as int } else { voting_power_at(p, period) },
        None => 0,
    }
}

/// A user's voting power at `period`, from the user's last checkpoint at or
/// before it.
pub fn get_user_voting_power_at_period(last_checkpoint: Option<Point>, period: u64) -> (vp: u128)
    requires
        last_checkpoint matches Some(p) ==> (p.start != period ==> voting_power_defined(p, period)),
    ensures
        vp == user_voting_power_spec(last_checkpoint, period),
{
    match last_checkpoint {
        Some(point) => if point.start == period {
            point.power
        } else {
            calc_voting_power(&point, period)
        },
        None => 0,
    }
}

/// The total's point to decay from at `period`: the last total checkpoint at
/// or before it, or an empty point at `period`.
pub open spec fn total_start_point(last: Option<Point>, period: u64) -> Point {
    match last {
        Some(p) => p,
        None => Point { power: 0, start: period, end: period, slope: Decimal { atomics: 0 } },
    }
}

/// The total voting power at `period`, where `changes` are the scheduled
/// slope changes after the start point and up to `period`.
pub open spec fn total_voting_power_spec(last: Option<Point>, period: u64, changes: Seq<SlopeChange>) -> int {
    let p = total_start_point(last, period);
    if p.start == period {
        p.power as int
    } else {
        voting_power_at(apply_changes(p, changes), period)
    }
}

pub open spec fn total_voting_power_defined(last: Option<Point>, period: u64, changes: Seq<SlopeChange>) -> bool {
    let p = total_start_point(last, period);
    p.start != period ==> {
        &&& apply_changes_defined(p, changes)
        &&& voting_power_defined(apply_changes(p, changes), period)
    }
}

/// The total voting power at `period`: from the last total checkpoint at or
/// before `period`, the scheduled slope changes in between (in order) are
/// applied and the result decays to `period`.
pub fn get_total_voting_power_at_period(
    last_checkpoint: Option<Point>,
    period: u64,
    changes: &Vec<SlopeChange>,
) -> (vp: u128)
    requires
        total_voting_power_defined(last_checkpoint, period, changes@),
    ensures
        vp == total_voting_power_spec(last_checkpoint, period, changes@),
{
    let point = match last_checkpoint {
        Some(p) => p,
        None => Point { power: 0, start: period, end: period, slope: Decimal::zero() },
    };
    if point.start == period {
        point.power
    } else {
        let (_, init_point) = recalculate(point, changes);
        calc_voting_power(&init_point, period)
    }
}

/// The period of a voting power query: that of `time`, or of the block time.
pub fn query_period(time: Option<u64>, block_time: u64) -> (period: u64)
    ensures
        period == spec_get_period(
            match time {
                Some(t) => t,
                None => block_time,
            },
        ),
{
    match time {
        Some(t) => get_period(t),
        None => get_period(block_time),
    }
}

/// The slope of a user's last checkpoint, truncated to an integer; zero for
/// a user without checkpoints.
pub fn get_last_user_slope(last_checkpoint: Option<Point>) -> (slope: u128)
    ensures
        slope == match last_checkpoint {
            Some(p) => mul_decimal_floor(1, p.slope),
            None => 0,
        },
{
    match last_checkpoint {
        Some(point) => {
            proof {
                assert(point.slope.atomics / DECIMAL_FRACTIONAL <= u128::MAX);
            }
            mul_decimal(1, point.slope)
        },
        None => 0,
    }
}

/// The period when a user's lock expires.
pub fn get_user_unlock_time(lock: Option<Lock>) -> (r: Result<u64, ContractError>)
    ensures
        r == match lock {
            Some(l) => Ok::<u64, ContractError>(l.end),
            None => Err(ContractError::UserLockNotFound),
        },
{
    match lock {
        Some(l) => Ok(l.end),
        None => Err(ContractError::UserLockNotFound),
    }
}

/// A user's lock information: its amount, start, end, and the coefficient of
/// the periods from its last extension to its end.
pub fn get_user_lock_info(lock: Option<Lock>) -> (r: Result<LockInfoResponse, ContractError>)
    requires
        lock matches Some(l) ==> l.last_extend_lock_period <= l.end,
    ensures
        r == match lock {
            Some(l) => Ok::<LockInfoResponse, ContractError>(
                LockInfoResponse {
                    amount: l.amount,
                    coefficient: coefficient((l.end - l.last_extend_lock_period) as u64),
                    start: l.start,
                    end: l.end,
                },
            ),
            None => Err(ContractError::UserLockNotFound),
        },
{
    match lock {
        Some(l) => Ok(
            LockInfoResponse {
                amount: l.amount,
                coefficient: calc_coefficient(l.end - l.last_extend_lock_period),
                start: l.start,
                end: l.end,
            },
        ),
        None => Err(ContractError::UserLockNotFound),
    }
}

/// A lock holds tokens: one with a zero amount counts as no lock.
pub open spec fn is_active(lock: Option<Lock>) -> bool {
    lock matches Some(l) && l.amount != 0
}

/// Only the ANC token contract may send the tokens that are locked.
pub fn anc_token_check(anchor_token: &String, sender: &String) -> (r: Result<(), ContractError>)
    ensures
        r is Ok <==> anchor_token@ == sender@,
        r is Err ==> r == Err::<(), ContractError>(ContractError::Unauthorized),
{
    if anchor_token.eq(sender) {
        Ok(())
    } else {
        Err(ContractError::Unauthorized)
    }
}

/// Creates a lock of `amount` tokens for `time` seconds at block time
/// `block_time`, where the user holds no tokens locked: it starts at the
/// current period and ends `get_period(time)` periods later. The lock time
/// must lie within the limits. The caller then checkpoints the user with
/// the amount and the end.
pub fn create_lock(existing: Option<Lock>, block_time: u64, amount: u128, time: u64) -> (r: Result<Lock, ContractError>)
    ensures
        !lock_time_within_limits(time) ==> r == Err::<Lock, ContractError>(ContractError::LockTimeLimitsError),
        lock_time_within_limits(time) && is_active(existing) ==> r == Err::<Lock, ContractError>(ContractError::LockAlreadyExists),
        lock_time_within_limits(time) && !is_active(existing) ==> r == Ok::<Lock, ContractError>(Lock {
            amount,
            start: spec_get_period(block_time),
            end: (spec_get_period(block_time) + spec_get_period(time)) as u64,
            last_extend_lock_period: spec_get_period(block_time),
        }),
{
    time_limits_check(time)?;
    let block_period = get_period(block_time);
    let end = block_period + get_period(time);
    match existing {
        Some(l) => if l.amount != 0 {
            return Err(ContractError::LockAlreadyExists);
        },
        None => {},
    }
    Ok(Lock { amount, start: block_period, end, last_extend_lock_period: block_period })
}

/// Adds `amount` tokens to a user's lock at block time `block_time`. The lock
/// must hold tokens and must not have expired. The caller then checkpoints
/// the user with the amount.
pub fn deposit_for(existing: Option<Lock>, block_time: u64, amount: u128) -> (r: Result<Lock, ContractError>)
    requires
        existing matches Some(l) ==> (l.amount != 0 && l.end > spec_get_period(block_time) ==> l.amount + amount
            <= u128::MAX),
    ensures
        !is_active(existing) ==> r == Err::<Lock, ContractError>(ContractError::LockDoesntExist),
        existing matches Some(l) ==> l.amount != 0 ==> r == if l.end <= spec_get_period(block_time) {
            Err::<Lock, ContractError>(ContractError::LockExpired)
        } else {
            Ok(Lock { amount: (l.amount + amount) as u128, ..l })
        },
{
    match existing {
        Some(l) => {
            if l.amount == 0 {
                Err(ContractError::LockDoesntExist)
            } else if l.end <= get_period(block_time) {
                Err(ContractError::LockExpired)
            } else {
                let mut lock = l;
                lock.amount = lock.amount + amount;
                Ok(lock)
            }
        },
        None => Err(ContractError::LockDoesntExist),
    }
}

/// What a withdrawal writes: the emptied lock, the point that resets the
/// user's history at the current period, and the tokens sent back.
#[derive(Clone, Copy, Debug, PartialEq, Eq, Structural)]
pub struct Withdrawal {
    pub lock: Lock,
    pub point: Point,
    pub amount: u128,
}

/// Withdraws the whole amount of an expired lock at block time `block_time`:
/// the lock is emptied, a zero point at the current period ends the user's
/// slope, and the amount is sent back.
pub fn withdraw(existing: Option<Lock>, block_time: u64) -> (r: Result<Withdrawal, ContractError>)
    ensures
        !is_active(existing) ==> r == Err::<Withdrawal, ContractError>(ContractError::LockDoesntExist),
        existing matches Some(l) ==> l.amount != 0 ==> r == if l.end > spec_get_period(block_time) {
            Err::<Withdrawal, ContractError>(ContractError::LockHasNotExpired)
        } else {
            Ok(Withdrawal {
                lock: Lock { amount: 0, ..l },
                point: Point {
                    power: 0,
                    start: spec_get_period(block_time),
                    end: spec_get_period(block_time),
                    slope: Decimal { atomics: 0 },
                },
                amount: l.amount,
            })
        },
{
    let lock = match existing {
        Some(l) => if l.amount != 0 {
            l
        } else {
            return Err(ContractError::LockDoesntExist);
        },
        None => {
            return Err(ContractError::LockDoesntExist);
        },
    };
    let cur_period = get_period(block_time);
    if lock.end > cur_period {
        Err(ContractError::LockHasNotExpired)
    } else {
        let amount = lock.amount;
        let mut emptied = lock;
        emptied.amount = 0;
        Ok(Withdrawal {
            lock: emptied,
            point: Point { power: 0, start: cur_period, end: cur_period, slope: Decimal::zero() },
            amount,
        })
    }
}

/// Extends a user's lock by `time` seconds at block time `block_time`: the
/// lock must hold tokens and must not have expired, `time` must lie within
/// the lock time limits, and so must the time from now to the new end.
/// The caller then checkpoints the user with the new end.
pub fn extend_lock_time(existing: Option<Lock>, block_time: u64, time: u64) -> (r: Result<Lock, ContractError>)
    requires
        existing matches Some(l) ==> (l.amount != 0 && lock_time_within_limits(time) && l.end > spec_get_period(
            block_time,
        ) ==> l.end * WEEK + time <= u64::MAX),
    ensures
        !is_active(existing) ==> r == Err::<Lock, ContractError>(ContractError::LockDoesntExist),
        existing matches Some(l) ==> l.amount != 0 ==> r == if !lock_time_within_limits(time) {
            Err::<Lock, ContractError>(ContractError::LockTimeLimitsError)
        } else if l.end <= spec_get_period(block_time) {
            Err::<Lock, ContractError>(ContractError::LockExpired)
        } else if !lock_time_within_limits((l.end * WEEK + time - block_time) as u64) {
            Err::<Lock, ContractError>(ContractError::LockTimeLimitsError)
        } else {
            Ok(Lock { end: (l.end + spec_get_period(time)) as u64, ..l })
        },
{
    let mut lock = match existing {
        Some(l) => if l.amount != 0 {
            l
        } else {
            return Err(ContractError::LockDoesntExist);
        },
        None => {
            return Err(ContractError::LockDoesntExist);
        },
    };
    time_limits_check(time)?;
    if lock.end <= get_period(block_time) {
        return Err(ContractError::LockExpired);
    }
    proof {
        assert(block_time < (block_time / WEEK + 1) * WEEK) by (nonlinear_arith);
        assert((block_time / WEEK + 1) * WEEK <= lock.end * WEEK) by (nonlinear_arith)
            requires block_time / WEEK < lock.end;
    }
    time_limits_check(lock.end * WEEK + time - block_time)?;
    proof {
        assert(lock.end * WEEK >= lock.end) by (nonlinear_arith);
    }
    lock.end = lock.end + get_period(time);
    Ok(lock)
}


/// Whether `calc_voting_power` can be taken at `period`.
pub fn voting_power_is_defined(point: &Point, period: u64) -> (b: bool)
    ensures
        b == voting_power_defined(*point, period),
{
    point.start <= period && rounded_mul_defined(point.slope, (period - point.start) as u128)
}

/// Whether the scheduled changes `changes` can be applied to `point` in
/// order.
fn apply_changes_are_defined(point: Point, changes: &Vec<SlopeChange>) -> (b: bool)
    ensures
        b == apply_changes_defined(point, changes@),
{
    let mut cur = point;
    let mut i: usize = 0;
    while i < changes.len()
        invariant
            i <= changes.len(),
            apply_changes_defined(point, changes@.take(i as int)),
            cur == apply_changes(point, changes@.take(i as int)),
        decreases changes.len() - i,
    {
        let c = changes[i];
        proof {
            assert(changes@.take(i + 1).drop_last() =~= changes@.take(i as int));
            assert(changes@.take(i + 1).last() == c);
        }
        if !(voting_power_is_defined(&cur, c.period) && c.slope.atomics <= cur.slope.atomics) {
            proof {
                if apply_changes_defined(point, changes@) {
                    lemma_apply_changes_prefix_defined(point, changes@, i as int);
                }
            }
            return false;
        }
        let vp = calc_voting_power(&cur, c.period);
        cur = Point { power: vp, start: c.period, slope: cur.slope.sub(c.slope), end: cur.end };
        i = i + 1;
    }
    proof {
        assert(changes@.take(changes@.len() as int) =~= changes@);
    }
    true
}

/// Whether a user checkpoint can be taken: `user_checkpoint_defined`, tested.
pub fn user_checkpoint_is_defined(
    cur_period: u64,
    last_checkpoint: Option<Point>,
    lock: Option<Lock>,
    add_amount: Option<u128>,
    new_end: Option<u64>,
) -> (b: bool)
    ensures
        b == user_checkpoint_defined(cur_period, last_checkpoint, lock, add_amount, new_end),
{
    let add = match add_amount {
        Some(a) => a,
        None => 0,
    };
    match last_checkpoint {
        Some(p) => {
            let end = match new_end {
                Some(e) => e,
                None => p.end,
            };
            let dt = if end >= cur_period { end - cur_period } else { 0 };
            if !voting_power_is_defined(&p, cur_period) {
                return false;
            }
            let current = calc_voting_power(&p, cur_period);
            if dt != 0 && end > p.end && add == 0 {
                match lock {
                    None => true,
                    Some(l) => {
                        let c = calc_coefficient(dt);
                        match checked_mul_div(l.amount, c.atomics, DECIMAL_FRACTIONAL) {
                            None => false,
                            Some(new_vp) => checked_mul_div(new_vp, DECIMAL_FRACTIONAL, dt as u128).is_some(),
                        }
                    },
                }
            } else {
                let add_vp = if dt != 0 {
                    let c = calc_coefficient(dt);
                    match checked_mul_div(add, c.atomics, DECIMAL_FRACTIONAL) {
                        None => {
                            return false;
                        },
                        Some(v) => v,
                    }
                } else {
                    0
                };
                if current > u128::MAX - add_vp {
                    return false;
                }
                dt == 0 || checked_mul_div(current + add_vp, DECIMAL_FRACTIONAL, dt as u128).is_some()
            }
        },
        None => match new_end {
            None => true,
            Some(end) => {
                if end <= cur_period {
                    return false;
                }
                let dt = end - cur_period;
                let c = calc_coefficient(dt);
                match checked_mul_div(add, c.atomics, DECIMAL_FRACTIONAL) {
                    None => false,
                    Some(v) => checked_mul_div(v, DECIMAL_FRACTIONAL, dt as u128).is_some(),
                }
            },
        },
    }
}

/// Whether a total checkpoint can be taken: `total_checkpoint_defined`,
/// tested.
pub fn total_checkpoint_is_defined(
    cur_period: u64,
    last_checkpoint: Option<Point>,
    last_slope_change: Option<u64>,
    changes: &Vec<SlopeChange>,
    add_voting_power: Option<u128>,
    old_slope: Decimal,
    new_slope: Decimal,
) -> (b: bool)
    ensures
        b == total_checkpoint_defined(
            cur_period,
            last_checkpoint,
            last_slope_change,
            changes@,
            add_voting_power,
            old_slope,
            new_slope,
        ),
{
    let add = match add_voting_power {
        Some(a) => a,
        None => 0,
    };
    match last_checkpoint {
        None => true,
        Some(p) => {
            let last_change = match last_slope_change {
                Some(v) => v,
                None => 0,
            };
            let mut base = p;
            if last_change < cur_period {
                if !apply_changes_are_defined(p, changes) {
                    return false;
                }
                let (_, b) = recalculate(p, changes);
                base = b;
            }
            if !voting_power_is_defined(&base, cur_period) {
                return false;
            }
            let vp = calc_voting_power(&base, cur_period);
            vp <= u128::MAX - add && old_slope.atomics <= base.slope.atomics && base.slope.atomics
                - old_slope.atomics <= u128::MAX - new_slope.atomics
        },
    }
}

/// Whether the total voting power at `period` can be taken:
/// `total_voting_power_defined`, tested.
pub fn total_voting_power_is_defined(last_checkpoint: Option<Point>, period: u64, changes: &Vec<SlopeChange>) -> (b: bool)
    ensures
        b == total_voting_power_defined(last_checkpoint, period, changes@),
{
    let p = match last_checkpoint {
        Some(p) => p,
        None => Point { power: 0, start: period, end: period, slope: Decimal::zero() },
    };
    if p.start == period {
        return true;
    }
    if !apply_changes_are_defined(p, changes) {
        return false;
    }
    let (_, q) = recalculate(p, changes);
    voting_power_is_defined(&q, period)
}

/// A point's voting power at its own period is its power: no decay has
/// happened yet.
pub proof fn lemma_voting_power_at_start(point: Point)
    ensures
        voting_power_at(point, point.start) == point.power,
{
    assert(0int * point.slope.atomics == 0);
}

/// Voting power only decays: at a later period it is never larger, as long as
/// the decay at the later period does not overflow (an overflowing product
/// counts as no decay).
pub proof fn lemma_voting_power_decays(point: Point, p1: u64, p2: u64)
    requires
        point.start <= p1 <= p2,
        !rounded_mul_overflows(point.slope, p2 - point.start),
    ensures
        voting_power_at(point, p2) <= voting_power_at(point, p1),
{
    lemma_rounded_product_monotone(point.slope, p1 - point.start, p2 - point.start);
}

/// Voting power runs out exactly when the lock ends: a point whose slope
/// spreads its power over `dt` periods has no power left `dt` periods later
/// (the rounded decay makes up for the truncated slope).
pub proof fn lemma_voting_power_ends_at_lock_end(point: Point, dt: u64)
    requires
        0 < dt <= HALF_UNIT,
        point.start + dt <= u64::MAX,
        point.slope.atomics == ratio_atomics(point.power as int, dt as int),
    ensures
        voting_power_at(point, (point.start + dt) as u64) == 0,
{
    let d = DECIMAL_FRACTIONAL as int;
    let p = point.power as int;
    let s = point.slope.atomics as int;
    let t = dt as int;
    assert(((point.start + dt) as u64) - point.start == t);
    // the truncated slope loses less than one atomic per period
    vstd::arithmetic::div_mod::lemma_fundamental_div_mod(p * d, t);
    assert(s == (p * d) / t);
    assert(t * s > p * d - t) by (nonlinear_arith)
        requires
            p * d == t * ((p * d) / t) + (p * d) % t,
            (p * d) % t < t,
            s == (p * d) / t;
    assert(t * s <= p * d) by (nonlinear_arith)
        requires
            p * d == t * ((p * d) / t) + (p * d) % t,
            (p * d) % t >= 0,
            s == (p * d) / t;
    assert(scaled_product(point.slope, t) == t * s);
    // the product does not overflow: its quotient is at most the power
    vstd::arithmetic::div_mod::lemma_div_is_ordered(t * s, p * d, d);
    vstd::arithmetic::div_mod::lemma_div_multiples_vanish(p, d);
    assert(p * d == d * p) by (nonlinear_arith);
    assert(!rounded_mul_overflows(point.slope, t));
    // rounding half up brings the decay back to the whole power
    lemma_rounded_product_is_shifted_floor(point.slope, t);
    assert(t * s + HALF_UNIT >= p * d);
    vstd::arithmetic::div_mod::lemma_div_is_ordered(p * d, t * s + HALF_UNIT, d);
    assert(rounded_product(point.slope, t) >= p);
}

/// A user checkpoint leaves the user with no voting power left when the lock
/// ends, whatever it recorded (a new lock, an added amount, a longer lock),
/// as long as a longer lock is worth at least the power already held.
pub proof fn lemma_checkpoint_power_ends_at_lock_end(
    cur: u64,
    last: Option<Point>,
    lock: Option<Lock>,
    add_amount: Option<u128>,
    new_end: Option<u64>,
)
    requires
        user_checkpoint_defined(cur, last, lock, add_amount, new_end),
        user_checkpoint_spec(cur, last, lock, add_amount, new_end) matches Ok(c) && cur < c.point.end
            && c.point.end - cur <= HALF_UNIT,
        last matches Some(p) ==> (is_time_extension(p, cur, opt_or_zero(add_amount), new_end) ==> (lock matches Some(
            l,
        ) && extended_power(l, periods_left(continued_end(p, new_end), cur)) >= voting_power_at(p, cur))),
    ensures
        user_checkpoint_spec(cur, last, lock, add_amount, new_end) matches Ok(c) && voting_power_at(
            c.point,
            c.point.end,
        ) == 0,
{
    let c = user_checkpoint_spec(cur, last, lock, add_amount, new_end)->Ok_0;
    let dt = (c.point.end - cur) as u64;
    assert(c.point.start == cur);
    assert(c.point.slope.atomics == ratio_atomics(c.point.power as int, dt as int));
    lemma_voting_power_ends_at_lock_end(c.point, dt);
}

/// A new lock of `amount` until period `end` gives the user, at once, the
/// amount times the coefficient of its length (for the longest lock, 2.5
/// times the amount), and that power runs out exactly at `end`.
pub proof fn lemma_new_lock_voting_power(cur: u64, amount: u128, end: u64)
    requires
        user_checkpoint_defined(cur, None, None, Some(amount), Some(end)),
        end > cur,
        end - cur <= HALF_UNIT,
    ensures
        user_checkpoint_spec(cur, None, None, Some(amount), Some(end)) matches Ok(c) && user_voting_power_spec(
            Some(c.point),
            cur,
        ) == mul_decimal_floor(amount as int, coefficient((end - cur) as u64)) && voting_power_at(c.point, end)
            == 0,
{
    lemma_checkpoint_power_ends_at_lock_end(cur, None, None, Some(amount), Some(end));
}

/// The lock coefficient is 1 for no time and 2.5 for the longest lock, and
/// grows with the lock's length.
pub proof fn lemma_coefficient_range(i: u64, j: u64)
    requires
        i <= j,
    ensures
        coefficient_atomics(0) == DECIMAL_FRACTIONAL,
        coefficient_atomics(MAX_LOCK_PERIODS) == 25 * DECIMAL_FRACTIONAL / 10,
        coefficient_atomics(i) <= coefficient_atomics(j),
{
    assert(15 * i * DECIMAL_FRACTIONAL <= 15 * j * DECIMAL_FRACTIONAL) by (nonlinear_arith)
        requires i <= j;
    vstd::arithmetic::div_mod::lemma_div_is_ordered(15 * i * DECIMAL_FRACTIONAL, 15 * j * DECIMAL_FRACTIONAL, 1040);
}

/// What a user checkpoint writes: without a history and without an end it
/// fails; otherwise the new point starts at the current period, ends at the
/// lock's end, and its slope spreads its power over the periods left (none
/// once the end has passed). The one exception is a time extension whose new
/// power is below the power left, where the power is kept and the slope
/// spreads the new power.
pub proof fn lemma_checkpoint_representation(
    cur: u64,
    last: Option<Point>,
    lock: Option<Lock>,
    add_amount: Option<u128>,
    new_end: Option<u64>,
)
    requires
        user_checkpoint_defined(cur, last, lock, add_amount, new_end),
    ensures
        last is None && new_end is None ==> user_checkpoint_spec(cur, last, lock, add_amount, new_end) == Err::<
            UserCheckpoint,
            ContractError,
        >(ContractError::CheckpointInitialization),
        user_checkpoint_spec(cur, last, lock, add_amount, new_end) matches Ok(c) ==> {
            let end = match last {
                Some(p) => continued_end(p, new_end),
                None => new_end->0,
            };
            let kept = match (last, lock) {
                (Some(p), Some(l)) => is_time_extension(p, cur, opt_or_zero(add_amount), new_end) && extended_power(
                    l,
                    periods_left(end, cur),
                ) < voting_power_at(p, cur),
                _ => false,
            };
            &&& c.point.start == cur
            &&& c.point.end == end
            &&& end > cur && !kept ==> c.point.slope.atomics == ratio_atomics(c.point.power as int, end - cur)
            &&& end <= cur ==> c.point.slope.atomics == 0
        },
{
}

/// Cancelling a slope change that was just scheduled restores the stored
/// change of that period, where the period lies after the last applied
/// slope change (stored changes are never zero).
pub proof fn lemma_cancel_undoes_schedule(
    existing: Option<Decimal>,
    last_slope_change: u64,
    slope: Decimal,
    period: u64,
)
    requires
        existing matches Some(d) ==> d.atomics != 0,
        schedule_defined(existing, slope),
        period > last_slope_change,
    ensures
        cancel_defined(scheduled_slope_change(existing, slope), last_slope_change, slope, period),
        slope.atomics != 0 ==> cancelled_slope_change(
            scheduled_slope_change(existing, slope),
            last_slope_change,
            slope,
            period,
        ) == existing,
{
}

/// A checkpoint that neither adds tokens nor moves the end of an expired lock
/// leaves the user with a zero slope and the lock's remaining power.
pub proof fn lemma_expired_lock_checkpoint_has_zero_slope(cur: u64, last: Point)
    requires
        last.end <= cur,
        user_checkpoint_defined(cur, Some(last), None, None, None),
    ensures
        user_checkpoint_spec(cur, Some(last), None, None, None) matches Ok(c) && c.point.slope.atomics == 0
            && c.point.power == voting_power_at(last, cur) && c.add_voting_power == 0,
{
}


/// The total's first point, written when the contract is created: no power
/// and no slope at the current period.
pub fn initial_total_point(block_time: u64) -> (p: Point)
    ensures
        p == (Point { power: 0, start: spec_get_period(block_time), end: 0, slope: Decimal { atomics: 0 } }),
{
    Point { power: 0, start: get_period(block_time), end: 0, slope: Decimal::zero() }
}

/// The lower-case form of a string: the name of what `str::to_lowercase`
/// returns.
pub uninterp spec fn lowercase(s: Seq<char>) -> Seq<char>;

/// `str::to_lowercase` of std. Claimed: its result, named `lowercase`, a
/// function of the string alone (Unicode lower-casing does not depend on a
/// locale).
#[verifier::external_body]
fn to_lowercase(s: &str) -> (r: String)
    ensures
        r@ == lowercase(s@),
{
    s.to_lowercase()
}

/// An address must be written in lower case: it is refused where lower-casing
/// changes it.
pub fn check_lowercase(addr: &str) -> (r: Result<(), ContractError>)
    ensures
        r is Ok <==> lowercase(addr@) == addr@,
        r is Err ==> r == Err::<(), ContractError>(ContractError::AddressNotLowercase),
{
    let lower = to_lowercase(addr);
    let given = addr.to_owned();
    if !lower.eq(&given) {
        return Err(ContractError::AddressNotLowercase);
    }
    Ok(())
}

/// The voting escrow's queries.
#[derive(Clone, Debug, PartialEq, Eq)]
pub enum QueryMsg {
    TotalVotingPower {},
    TotalVotingPowerAt { time: u64 },
    TotalVotingPowerAtPeriod { period: u64 },
    UserVotingPower { user: String },
    UserVotingPowerAt { user: String, time: u64 },
    UserVotingPowerAtPeriod { user: String, period: u64 },
    LastUserSlope { user: String },
    UserUnlockPeriod { user: String },
    LockInfo { user: String },
    MarketingInfo {},
    DownloadLogo {},
    Config {},
    TokenInfo {},
}

/// A voting power answer.
#[derive(Clone, Copy, Debug, PartialEq, Eq, Structural)]
pub struct VotingPowerResponse {
    pub voting_power: u128,
}

/// A user's last slope answer.
#[derive(Clone, Copy, Debug, PartialEq, Eq, Structural)]
pub struct UserSlopeResponse {
    pub slope: Decimal,
}

/// A user's unlock period answer.
#[derive(Clone, Copy, Debug, PartialEq, Eq, Structural)]
pub struct UserUnlockPeriodResponse {
    pub unlock_period: u64,
}

/// The settings answer.
#[derive(Clone, Debug, PartialEq, Eq)]
pub struct ConfigResponse {
    pub owner: String,
    pub anchor_token: String,
}

} // verus!
