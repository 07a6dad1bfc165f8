use anchor_token::voting_escrow::{ anc_token_check, total_checkpoint_is_defined, total_voting_power_is_defined, user_checkpoint_is_defined, voting_power_is_defined, };
use anchor_token::math::{mul_decimal, Decimal};
use anchor_token::voting_escrow::{
    calc_coefficient, calc_voting_power, cancel_scheduled_slope, check_lowercase, checkpoint,
    checkpoint_total, create_lock, deposit_for, extend_lock_time, get_last_user_slope, get_period,
    get_total_voting_power_at_period, get_user_lock_info, get_user_unlock_time,
    get_user_voting_power_at_period, initial_total_point, query_period, schedule_slope_change,
    time_limits_check, withdraw, ContractError, Lock, Point, SlopeChange, MAX_LOCK_TIME,
    MIN_LOCK_TIME, WEEK,
};

const BLOCK_TIME: u64 = 1_571_797_419;

fn dec(n: u128) -> Decimal {
    Decimal::from_ratio(n, 1)
}

#[test]
fn test_calc_voting_power_util() {
    let point = Point {
        power: 100,
        start: 0,
        end: 100,
        slope: Decimal::from_ratio(99999999999999999999u128, 1),
    };
    let period = u128::MAX as u64;

    // checks vp remains the same when multiplication overflows
    let voting_power = calc_voting_power(&point, period);
    assert_eq!(voting_power, point.power);

    let point = Point { power: 200, start: 0, end: 100, slope: Decimal::from_ratio(5, 3) };

    // checks vp is rounded up correctly
    let voting_power = calc_voting_power(&point, point.end);
    let expected_vp = point.power
        - anchor_token::math::mul_decimal(
            1,
            Decimal::from_ratio(500, 3).add(Decimal::one()),
        );
    assert_eq!(voting_power, expected_vp);

    let point = Point { power: 200, start: 0, end: 100, slope: Decimal::from_ratio(500, 3) };

    // checks vp is zero when sub overflows
    let voting_power = calc_voting_power(&point, point.end);
    assert_eq!(voting_power, 0);
}

#[test]
fn test_slope_changes_util() {
    let slope = dec(10);
    let period = 2u64;

    // canceling scheduled slopes decreases current slope by change
    let slope_change = dec(5);
    let stored = cancel_scheduled_slope(Some(slope), period - 1, slope_change, period);
    assert_eq!(stored, Some(dec(5)));

    // canceling scheduled slopes after `LAST_SLOPE_CHANGE` does nothing
    let stored = cancel_scheduled_slope(stored, period + 1, slope_change, period);
    assert_eq!(stored, Some(dec(5)));

    // scheduling slope changes adds change to existing slope
    let stored = schedule_slope_change(stored, Decimal::one());
    assert_eq!(stored, Some(dec(6)));
}

#[test]
fn test_checkpoint_total() {
    let point = Point { power: 100, start: 0, end: 100, slope: dec(4) };
    let changes = vec![
        SlopeChange { period: 2, slope: dec(0) },
        SlopeChange { period: 3, slope: dec(2) },
        SlopeChange { period: 4, slope: dec(2) },
    ];
    let cur_period = get_period(BLOCK_TIME + 5 * WEEK);
    let r = checkpoint_total(
        cur_period,
        Some(point),
        Some(0),
        &changes,
        None,
        None,
        Decimal::zero(),
        Decimal::zero(),
    );

    // check passed points are recalculated
    assert_eq!(r.recalculated.len(), 3);
    assert_eq!(r.recalculated[0].start, 2);
    assert_eq!(anchor_token::math::mul_decimal(1, r.recalculated[0].slope), 4);
    assert_eq!(anchor_token::math::mul_decimal(1, r.recalculated[1].slope), 2);
    assert_eq!(anchor_token::math::mul_decimal(1, r.recalculated[2].slope), 0);
    assert_eq!(r.recalculated[0].power, 92);
    assert_eq!(r.recalculated[1].power, 88);
    assert_eq!(r.recalculated[2].power, 86);
    assert_eq!(r.last_slope_change, Some(cur_period));
    assert_eq!(r.point.start, cur_period);
    assert_eq!(r.point.power, 86);
}

#[test]
fn coefficient_runs_from_one_to_two_and_a_half() {
    // no time gives 1, the longest lock (104 weeks) gives 2.5, linearly in between
    let periods = get_period(MAX_LOCK_TIME);
    assert_eq!(periods, 104);
    assert_eq!(calc_coefficient(periods), Decimal::from_ratio(5, 2));
    assert_eq!(calc_coefficient(0), Decimal::one());
    assert_eq!(calc_coefficient(52), Decimal::from_ratio(7, 4));
    assert_eq!(calc_coefficient(2), Decimal::one().add(Decimal::from_ratio(3, 104)));
    let cur = get_period(BLOCK_TIME);
    let c = checkpoint(cur, None, None, Some(100), Some(cur + periods)).unwrap();
    assert_eq!(c.point.power, 250);
    assert_eq!(c.add_voting_power, 250);
    assert_eq!(c.point.slope, Decimal::from_ratio(250, 104));
    assert_eq!(c.cancel, None);
}

#[test]
fn time_limits_are_a_week_to_the_longest_lock() {
    assert_eq!(time_limits_check(WEEK), Ok(()));
    assert_eq!(time_limits_check(2 * WEEK), Ok(()));
    assert_eq!(time_limits_check(MAX_LOCK_TIME), Ok(()));
    assert_eq!(time_limits_check(WEEK - 1), Err(ContractError::LockTimeLimitsError));
    assert_eq!(time_limits_check(2 * 86400), Err(ContractError::LockTimeLimitsError));
    assert_eq!(time_limits_check(MAX_LOCK_TIME + 1), Err(ContractError::LockTimeLimitsError));
    assert_eq!(MIN_LOCK_TIME, WEEK);
}

#[test]
fn checkpoint_without_history_needs_an_end() {
    assert_eq!(checkpoint(10, None, None, Some(5), None), Err(ContractError::CheckpointInitialization));
}

#[test]
fn checkpoint_adds_amount_to_decayed_power() {
    let cur = 100u64;
    let last = Point { power: 1000, start: 90, end: 110, slope: dec(50) };
    // decayed: 1000 - 50 * 10 = 500; adding 104 for 10 periods:
    // 104 * (1 + 15 / 104) = 119, truncated through the coefficient to 118
    let c = checkpoint(cur, Some(last), None, Some(104), None).unwrap();
    assert_eq!(c.point.power, 618);
    assert_eq!(c.add_voting_power, 118);
    assert_eq!(c.point.slope, Decimal::from_ratio(618, 10));
    assert_eq!(c.old_slope, dec(50));
    assert_eq!(c.cancel, Some(SlopeChange { period: 110, slope: dec(50) }));
    assert_eq!(c.lock, None);
}

#[test]
fn checkpoint_of_time_extension_recomputes_lock_power() {
    let cur = 100u64;
    let last = Point { power: 1000, start: 90, end: 110, slope: dec(50) };
    let lock = Lock { amount: 208, start: 90, end: 120, last_extend_lock_period: 90 };
    // 20 periods left: 208 * (1 + 30 / 104) = 268 (267 through the truncated
    // coefficient), below the current power 1000 - 50 * 10 = 500, which is kept
    let c = checkpoint(cur, Some(last), Some(lock), None, Some(120)).unwrap();
    assert_eq!(c.point.power, 500);
    assert_eq!(c.add_voting_power, 0);
    assert_eq!(c.point.slope, Decimal::from_ratio(267, 20));
    assert_eq!(c.lock, Some(Lock { last_extend_lock_period: 100, ..lock }));
    // a larger lock: 2080 * 1.288461538461538461 = 2679 replaces the power
    let big = Lock { amount: 2080, ..lock };
    let c = checkpoint(cur, Some(last), Some(big), None, Some(120)).unwrap();
    assert_eq!(c.point.power, 2679);
    assert_eq!(c.add_voting_power, 2179);
    assert_eq!(c.point.slope, Decimal::from_ratio(2679, 20));
    assert_eq!(checkpoint(cur, Some(last), None, None, Some(120)), Err(ContractError::LockNotFound));
}

#[test]
fn checkpoint_of_expired_lock_has_zero_slope() {
    let last = Point { power: 100, start: 10, end: 14, slope: dec(25) };
    let c = checkpoint(20, Some(last), None, None, None).unwrap();
    assert_eq!(c.point.slope, Decimal::zero());
    assert_eq!(c.point.power, 0);
}

#[test]
fn user_voting_power_queries() {
    assert_eq!(get_user_voting_power_at_period(None, 5), 0);
    let p = Point { power: 100, start: 5, end: 15, slope: dec(10) };
    assert_eq!(get_user_voting_power_at_period(Some(p), 5), 100);
    assert_eq!(get_user_voting_power_at_period(Some(p), 8), 70);
    assert_eq!(get_last_user_slope(Some(p)), 10);
    assert_eq!(get_last_user_slope(None), 0);
    assert_eq!(query_period(Some(WEEK * 3 + 1), 0), 3);
    assert_eq!(query_period(None, WEEK * 4), 4);
}

#[test]
fn total_voting_power_applies_scheduled_changes() {
    let p = Point { power: 300, start: 0, end: 0, slope: dec(30) };
    let changes = vec![SlopeChange { period: 5, slope: dec(20) }];
    // at 5: 300 - 150 = 150, slope 10; at 8: 150 - 30 = 120
    assert_eq!(get_total_voting_power_at_period(Some(p), 8, &changes), 120);
    assert_eq!(get_total_voting_power_at_period(None, 8, &Vec::new()), 0);
    assert_eq!(get_total_voting_power_at_period(Some(p), 0, &changes), 300);
}

#[test]
fn lock_lifecycle() {
    let t = BLOCK_TIME;
    let period = get_period(t);
    let lock = create_lock(None, t, 10, 2 * WEEK).unwrap();
    assert_eq!(lock, Lock { amount: 10, start: period, end: period + 2, last_extend_lock_period: period });
    assert_eq!(create_lock(Some(lock), t, 10, WEEK), Err(ContractError::LockAlreadyExists));
    assert_eq!(create_lock(None, t, 10, 2 * 86400), Err(ContractError::LockTimeLimitsError));
    assert_eq!(create_lock(None, t, 10, MAX_LOCK_TIME + 86400), Err(ContractError::LockTimeLimitsError));
    let empty = Lock { amount: 0, ..lock };
    assert!(create_lock(Some(empty), t, 10, WEEK).is_ok());

    let more = deposit_for(Some(lock), t, 20).unwrap();
    assert_eq!(more.amount, 30);
    assert_eq!(deposit_for(None, t, 20), Err(ContractError::LockDoesntExist));
    assert_eq!(deposit_for(Some(lock), t + 2 * WEEK, 20), Err(ContractError::LockExpired));

    assert_eq!(withdraw(Some(lock), t).unwrap_err(), ContractError::LockHasNotExpired);
    assert_eq!(withdraw(Some(empty), t).unwrap_err(), ContractError::LockDoesntExist);
    let w = withdraw(Some(lock), (period + 2) * WEEK).unwrap();
    assert_eq!(w.amount, 10);
    assert_eq!(w.lock.amount, 0);
    assert_eq!(w.point, Point { power: 0, start: period + 2, end: period + 2, slope: Decimal::zero() });

    let extended = extend_lock_time(Some(lock), t, 3 * WEEK).unwrap();
    assert_eq!(extended.end, period + 5);
    assert_eq!(extend_lock_time(Some(lock), t, 2 * 86400), Err(ContractError::LockTimeLimitsError));
    assert_eq!(
        extend_lock_time(Some(extended), t, MAX_LOCK_TIME),
        Err(ContractError::LockTimeLimitsError)
    );
    assert_eq!(
        extend_lock_time(Some(lock), (period + 2) * WEEK, WEEK),
        Err(ContractError::LockExpired)
    );
    assert_eq!(extend_lock_time(None, t, WEEK), Err(ContractError::LockDoesntExist));
}

#[test]
fn unlock_period_and_lock_info() {
    let lock = Lock { amount: 100, start: 10, end: 14, last_extend_lock_period: 10 };
    assert_eq!(get_user_unlock_time(Some(lock)), Ok(14));
    assert_eq!(get_user_unlock_time(None), Err(ContractError::UserLockNotFound));
    let info = get_user_lock_info(Some(lock)).unwrap();
    assert_eq!(info.coefficient, Decimal::one().add(Decimal::from_ratio(6, 104)));
    assert_eq!(info.amount, 100);
    assert_eq!(get_user_lock_info(None), Err(ContractError::UserLockNotFound));
}

#[test]
fn lowercase_addresses_only() {
    assert_eq!(check_lowercase("UPPER0000"), Err(ContractError::AddressNotLowercase));
    assert_eq!(check_lowercase("addr0000"), Ok(()));
}

#[test]
fn cancel_undoes_schedule() {
    let existing = Some(dec(3));
    let after = schedule_slope_change(existing, dec(2));
    assert_eq!(after, Some(dec(5)));
    assert_eq!(cancel_scheduled_slope(after, 0, dec(2), 7), existing);
    let fresh = schedule_slope_change(None, dec(2));
    assert_eq!(cancel_scheduled_slope(fresh, 0, dec(2), 7), None);
    assert_eq!(schedule_slope_change(existing, Decimal::zero()), existing);
}

#[test]
fn voting_power_never_grows() {
    let p = Point { power: 1000, start: 3, end: 50, slope: Decimal::from_ratio(7, 3) };
    let mut prev = calc_voting_power(&p, 3);
    assert_eq!(prev, 1000);
    for period in 4..60 {
        let vp = calc_voting_power(&p, period);
        assert!(vp <= prev);
        prev = vp;
    }
    assert_eq!(initial_total_point(WEEK * 9).start, 9);
}

#[test]
fn voting_power_runs_out_at_lock_end() {
    // a lock of 100 for the longest time: 250 voting power that reaches 0 at the end
    let cur = get_period(BLOCK_TIME);
    let c = checkpoint(cur, None, None, Some(100), Some(cur + 104)).unwrap();
    assert_eq!(c.point.power, 250);
    assert_eq!(calc_voting_power(&c.point, cur + 52), 125);
    assert_eq!(calc_voting_power(&c.point, cur + 104), 0);
    // a slope that truncates (1000 / 3 per period) still empties the power on time
    let p = Point { power: 1000, start: 0, end: 3, slope: Decimal::from_ratio(1000, 3) };
    assert_eq!(calc_voting_power(&p, 2), 333);
    assert_eq!(calc_voting_power(&p, 3), 0);
    // so does a checkpoint that adds to a lock
    let last = Point { power: 1000, start: 90, end: 110, slope: dec(50) };
    let c = checkpoint(100, Some(last), None, Some(104), None).unwrap();
    assert_eq!(calc_voting_power(&c.point, 110), 0);
}

#[test]
fn checkpoint_definedness() {
    let cur = get_period(BLOCK_TIME);
    assert!(user_checkpoint_is_defined(cur, None, None, Some(100), Some(cur + 208)));
    // the end must lie after the current period
    assert!(!user_checkpoint_is_defined(cur, None, None, Some(100), Some(cur)));
    // the added power must fit 128 bits
    assert!(!user_checkpoint_is_defined(cur, None, None, Some(u128::MAX), Some(cur + 208)));
    assert!(user_checkpoint_is_defined(cur, None, None, Some(5), None));
    let last = Point { power: 1000, start: 90, end: 110, slope: dec(50) };
    assert!(user_checkpoint_is_defined(100, Some(last), None, Some(104), None));
    assert!(!user_checkpoint_is_defined(80, Some(last), None, Some(104), None));

    let p = Point { power: 100, start: 0, end: 100, slope: dec(4) };
    assert!(voting_power_is_defined(&p, 3));
    assert!(!voting_power_is_defined(&Point { start: 5, ..p }, 3));
    let changes = vec![SlopeChange { period: 2, slope: dec(1) }];
    assert!(total_checkpoint_is_defined(5, Some(p), Some(0), &changes, Some(10), Decimal::zero(), dec(1)));
    // a change larger than the slope cannot be applied
    let bad = vec![SlopeChange { period: 2, slope: dec(5) }];
    assert!(!total_checkpoint_is_defined(5, Some(p), Some(0), &bad, None, Decimal::zero(), Decimal::zero()));
    // the old slope cannot exceed the total's
    assert!(!total_checkpoint_is_defined(5, Some(p), Some(9), &Vec::new(), None, dec(5), Decimal::zero()));
    assert!(total_voting_power_is_defined(Some(p), 5, &changes));
    assert!(!total_voting_power_is_defined(Some(p), 5, &bad));
    assert!(total_voting_power_is_defined(None, 5, &Vec::new()));

    assert_eq!(anc_token_check(&"anc".to_string(), &"anc".to_string()), Ok(()));
    assert_eq!(anc_token_check(&"anc".to_string(), &"other".to_string()), Err(ContractError::Unauthorized));
}

fn coeff_of(periods: u128) -> Decimal {
    // 1 + 1.5 * periods / 104
    Decimal::one().add(Decimal::from_ratio(15 * periods, 1040))
}

#[test]
fn test_create_lock() {
    let t = BLOCK_TIME;
    let start_period = get_period(t);
    // only the anchor token is authorized to create locks
    assert_eq!(anc_token_check(&"anchor".to_string(), &"random".to_string()), Err(ContractError::Unauthorized));
    // time provided is below limit
    assert_eq!(create_lock(None, t, 10, 2 * 86400), Err(ContractError::LockTimeLimitsError));
    // time provided is above limit
    assert_eq!(create_lock(None, t, 10, MAX_LOCK_TIME + 86400), Err(ContractError::LockTimeLimitsError));
    // creates lock successfully
    let lock = create_lock(None, t, 10, 2 * WEEK).unwrap();
    let c = checkpoint(start_period, None, None, Some(10), Some(lock.end)).unwrap();
    let lock_info = get_user_lock_info(Some(lock)).unwrap();
    let expected_coeff = Decimal::one().add(Decimal::from_ratio(3, 104));
    assert_eq!(coeff_of(2), expected_coeff);
    assert_eq!(lock_info.amount, 10);
    assert_eq!(lock_info.start, start_period);
    assert_eq!(lock_info.end, start_period + 2);
    assert_eq!(lock_info.coefficient, expected_coeff);
    // cannot create multiple locks for same user
    assert_eq!(create_lock(Some(lock), t, 10, WEEK), Err(ContractError::LockAlreadyExists));
    // user voting power at `start` should be AMOUNT * coefficient
    assert_eq!(
        get_user_voting_power_at_period(Some(c.point), lock_info.start),
        mul_decimal(10, expected_coeff)
    );
    // user voting power at `end` should be 0
    assert_eq!(get_user_voting_power_at_period(Some(c.point), lock_info.end), 0);
}

#[test]
fn test_extend_lock_amount() {
    let t = BLOCK_TIME;
    let lock = create_lock(None, t, 20, WEEK).unwrap();
    // only the anchor token is authorized to extend lock amount
    assert_eq!(anc_token_check(&"anchor".to_string(), &"random".to_string()), Err(ContractError::Unauthorized));
    // cannot extend lock amount for a user w/o a lock
    assert_eq!(deposit_for(None, t, 10), Err(ContractError::LockDoesntExist));
    // cannot extend lock amount for an expired lock
    assert_eq!(deposit_for(Some(lock), t + 3 * WEEK, 10), Err(ContractError::LockExpired));
    // extends lock amount successfully
    let lock = deposit_for(Some(lock), t, 10).unwrap();
    assert_eq!(get_user_lock_info(Some(lock)).unwrap().amount, 30);
}

#[test]
fn test_deposit_for() {
    let t = BLOCK_TIME;
    let lock = create_lock(None, t, 50, WEEK).unwrap();
    // only the anchor token is authorized to deposit for `user`
    assert_eq!(anc_token_check(&"anchor".to_string(), &"random".to_string()), Err(ContractError::Unauthorized));
    // deposit `user` address must be lowercase
    assert_eq!(check_lowercase("UPPER0000"), Err(ContractError::AddressNotLowercase));
    // deposit for `user` successfully
    assert_eq!(check_lowercase("addr0000"), Ok(()));
    let lock = deposit_for(Some(lock), t, 50).unwrap();
    assert_eq!(get_user_lock_info(Some(lock)).unwrap().amount, 100);
}

#[test]
fn test_extend_lock_time() {
    let t = BLOCK_TIME;
    let lock = create_lock(None, t, 10, WEEK).unwrap();
    // time to extend must be at least a week
    assert_eq!(extend_lock_time(Some(lock), t, 2 * 86400), Err(ContractError::LockTimeLimitsError));
    // cannot extend lock time for an expired lock
    assert_eq!(extend_lock_time(Some(lock), t + 3 * WEEK, WEEK), Err(ContractError::LockExpired));
    // cannot extend lock time beyond MAX_LOCK_TIME
    assert_eq!(extend_lock_time(Some(lock), t, MAX_LOCK_TIME), Err(ContractError::LockTimeLimitsError));
    let curr_lock_info = get_user_lock_info(Some(lock)).unwrap();
    // extends lock time successfully
    let updated = extend_lock_time(Some(lock), t, WEEK * 3).unwrap();
    let updated_lock_info = get_user_lock_info(Some(updated)).unwrap();
    // checks `end` time was extended by 3 weeks
    assert_eq!(updated_lock_info.end, curr_lock_info.end + 3);
    assert_eq!(updated_lock_info.amount, curr_lock_info.amount);
    assert_eq!(updated_lock_info.start, curr_lock_info.start);
}

#[test]
fn tests_test_withdraw() {
    let t = BLOCK_TIME;
    let p0 = get_period(t);
    let lock = create_lock(None, t, 100, WEEK).unwrap();
    let c = checkpoint(p0, None, None, Some(100), Some(lock.end)).unwrap();
    let total = checkpoint_total(p0, None, None, &Vec::new(), Some(c.add_voting_power), None, c.old_slope, c.point.slope);
    // cannot withdraw for a user w/o a lock
    assert_eq!(withdraw(None, t).unwrap_err(), ContractError::LockDoesntExist);
    // cannot withdraw if lock has not expired
    assert_eq!(withdraw(Some(lock), t).unwrap_err(), ContractError::LockHasNotExpired);
    // withdraw successfully
    let t3 = t + 3 * WEEK;
    let p3 = get_period(t3);
    let w = withdraw(Some(lock), t3).unwrap();
    assert_eq!(w.amount, 100);
    assert_eq!(get_user_voting_power_at_period(Some(w.point), p3), 0);
    let changes = vec![SlopeChange { period: lock.end, slope: c.point.slope }];
    assert_eq!(get_total_voting_power_at_period(Some(total.point), p3, &changes), 0);
    // cannot withdraw if user has zero amount `locked`
    assert_eq!(get_user_lock_info(Some(w.lock)).unwrap().amount, 0);
    assert_eq!(withdraw(Some(w.lock), t3).unwrap_err(), ContractError::LockDoesntExist);
}

#[test]
fn test_get_total_voting_power() {
    let t = BLOCK_TIME;
    let p0 = get_period(t);
    let l1 = create_lock(None, t, 100, 2 * WEEK).unwrap();
    let c1 = checkpoint(p0, None, None, Some(100), Some(l1.end)).unwrap();
    let t1 = checkpoint_total(p0, None, None, &Vec::new(), Some(c1.add_voting_power), None, c1.old_slope, c1.point.slope);
    let l2 = create_lock(None, t, 50, 4 * WEEK).unwrap();
    let c2 = checkpoint(p0, None, None, Some(50), Some(l2.end)).unwrap();
    let t2 = checkpoint_total(
        p0,
        Some(t1.point),
        t1.last_slope_change,
        &Vec::new(),
        Some(c2.add_voting_power),
        None,
        c2.old_slope,
        c2.point.slope,
    );
    // voting power at start time should include both user1 and user2
    let user1_voting_power = mul_decimal(100, coeff_of(2));
    let user2_voting_power = mul_decimal(50, coeff_of(4));
    assert_eq!(
        get_total_voting_power_at_period(Some(t2.point), p0, &Vec::new()),
        user1_voting_power + user2_voting_power
    );
    // voting power after 2 weeks should only include user2
    let two_weeks_later = t + 2 * WEEK + 1;
    let period = query_period(Some(two_weeks_later), t);
    assert_eq!(period, two_weeks_later / WEEK);
    let user2_slope = Decimal::from_ratio(user2_voting_power, (4 * WEEK) as u128);
    let expected_voting_power = user2_voting_power - mul_decimal((two_weeks_later - t) as u128, user2_slope);
    let changes = vec![SlopeChange { period: l1.end, slope: c1.point.slope }];
    assert_eq!(get_total_voting_power_at_period(Some(t2.point), period, &changes), expected_voting_power);
}

#[test]
fn test_get_user_voting_power() {
    let t = BLOCK_TIME;
    let p0 = get_period(t);
    let lock = create_lock(None, t, 100, 4 * WEEK).unwrap();
    let c = checkpoint(p0, None, None, Some(100), Some(lock.end)).unwrap();
    // user voting power at start time
    let expected_voting_power = mul_decimal(100, coeff_of(4));
    assert_eq!(get_user_voting_power_at_period(Some(c.point), query_period(None, t)), expected_voting_power);
    // user voting power 1 week later
    let one_week_later = t + WEEK + 1;
    let user_slope = Decimal::from_ratio(expected_voting_power, (4 * WEEK) as u128);
    let expected_voting_power = expected_voting_power - mul_decimal((one_week_later - t) as u128, user_slope);
    assert_eq!(
        get_user_voting_power_at_period(Some(c.point), query_period(Some(one_week_later), t)),
        expected_voting_power
    );
    assert_eq!(get_user_voting_power_at_period(Some(c.point), one_week_later / WEEK), expected_voting_power);
}

#[test]
fn test_get_last_user_slope() {
    let t = BLOCK_TIME;
    let p0 = get_period(t);
    let lock = create_lock(None, t, 100, 4 * WEEK).unwrap();
    let c = checkpoint(p0, None, None, Some(100), Some(lock.end)).unwrap();
    let user_vp = mul_decimal(100, coeff_of(4));
    let expected_slope = mul_decimal(1, Decimal::from_ratio(user_vp, 4));
    assert_eq!(get_last_user_slope(Some(c.point)), expected_slope);
    // extending lock time should update the slope
    let extended = extend_lock_time(Some(lock), t, 6 * WEEK).unwrap();
    let c2 = checkpoint(p0, Some(c.point), Some(extended), None, Some(extended.end)).unwrap();
    let user_vp = mul_decimal(user_vp, Decimal::one().add(Decimal::from_ratio(10, 104)));
    let expected_slope = mul_decimal(1, Decimal::from_ratio(user_vp, 10));
    assert_eq!(get_last_user_slope(Some(c2.point)), expected_slope);
}

#[test]
fn test_get_user_unlock_period() {
    let t = BLOCK_TIME;
    let lock = create_lock(None, t, 100, 4 * WEEK).unwrap();
    assert_eq!(get_user_unlock_time(Some(lock)), Ok((t + 4 * WEEK) / WEEK));
    // extending lock time should update unlock period
    let extended = extend_lock_time(Some(lock), t, 6 * WEEK).unwrap();
    assert_eq!(get_user_unlock_time(Some(extended)), Ok((t + 10 * WEEK) / WEEK));
}

#[test]
fn test_checkpoint() {
    let t = BLOCK_TIME;
    let start = t / WEEK;
    let end = start + 4;
    let c = checkpoint(start, None, None, Some(100), Some(end)).unwrap();
    let coeff = Decimal::one().add(Decimal::from_ratio(6, 104)); // (1 + (1.5 * 4)/104)
    let expected_power = mul_decimal(100, coeff);
    assert_eq!(expected_power, 105);
    let expected_slope = Decimal::from_ratio(expected_power, 4);
    assert_eq!(c.point.start, start);
    assert_eq!(c.point.end, end);
    assert_eq!(c.point.slope, expected_slope);
    assert_eq!(c.point.power, expected_power);
    // slope should be zero for an expired lock
    let later = (t + 4 * WEEK + 1) / WEEK;
    let c2 = checkpoint(later, Some(c.point), None, None, None).unwrap();
    assert_eq!(c2.point.slope, Decimal::zero());
}
