//! LP token staking: rewards released per block along a distribution
//! schedule and shared among stakers through a global reward index.
use vstd::prelude::*;
use crate::math::{
    Decimal, DECIMAL_FRACTIONAL, checked_mul_div, lemma_index_growth_share, mul_decimal, mul_decimal_floor, ratio_atomics,
};
use crate::schedule::{
    Schedule, lemma_no_release_over_empty_range, total_release, total_released, total_released_defined,
    total_released_is_defined,
};

verus! {

/// The errors staking answers with.
#[derive(Clone, Copy, Debug, PartialEq, Eq, Structural)]
pub enum ContractError {
    /// A subtraction went below zero.
    Underflow,
    Unauthorized,
    /// A received token message carried no data.
    DataShouldBeGiven,
    /// An unbond asked for more than the staker's bond.
    CannotUnbondMoreThanBondAmount,
}

/// The staking settings: the reward token, the staked token and the
/// schedule of rewards.
#[derive(Clone, Debug, PartialEq, Eq)]
pub struct Config {
    pub anchor_token: String,
    pub staking_token: String,
    pub distribution_schedule: Vec<Schedule>,
}

/// The pool of all stakers.
#[derive(Clone, Copy, Debug, PartialEq, Eq, Structural)]
pub struct State {
    pub last_distributed: u64,
    pub total_bond_amount: u128,
    pub global_reward_index: Decimal,
}

/// One staker's bond and rewards.
#[derive(Clone, Copy, Debug, PartialEq, Eq, Structural)]
pub struct StakerInfo {
    pub reward_index: Decimal,
    pub bond_amount: u128,
    pub pending_reward: u128,
}

/// Computing the released rewards does not panic.
pub open spec fn compute_reward_defined(ss: Seq<Schedule>, state: State, height: u64) -> bool {
    state.total_bond_amount != 0 ==> {
        &&& total_released_defined(ss, state.last_distributed, height)
        &&& ratio_atomics(total_release(ss, state.last_distributed, height), state.total_bond_amount as int)
            <= u128::MAX
        &&& state.global_reward_index.atomics + ratio_atomics(
            total_release(ss, state.last_distributed, height),
            state.total_bond_amount as int,
        ) <= u128::MAX
    }
}

/// The pool after the rewards released up to `height` are distributed.
pub open spec fn compute_reward_spec(ss: Seq<Schedule>, state: State, height: u64) -> State {
    if state.total_bond_amount == 0 {
        State { last_distributed: height, ..state }
    } else {
        State {
            last_distributed: height,
            total_bond_amount: state.total_bond_amount,
            global_reward_index: Decimal {
                atomics: (state.global_reward_index.atomics + ratio_atomics(
                    total_release(ss, state.last_distributed, height),
                    state.total_bond_amount as int,
                )) as u128,
            },
        }
    }
}

/// Distributes the rewards released since the last distribution up to block
/// `height`: the global reward index grows by the released amount per bonded
/// token. With nothing bonded, nothing is distributed.
pub fn compute_reward(config: &Config, state: &mut State, block_height: u64)
    requires
        compute_reward_defined(config.distribution_schedule@, *old(state), block_height),
    ensures
        *final(state) == compute_reward_spec(config.distribution_schedule@, *old(state), block_height),
{
    if state.total_bond_amount == 0 {
        state.last_distributed = block_height;
        return;
    }
    let distributed_amount = total_released(&config.distribution_schedule, state.last_distributed, block_height);
    state.last_distributed = block_height;
    state.global_reward_index = state.global_reward_index.add(
        Decimal::from_ratio(distributed_amount, state.total_bond_amount),
    );
}

/// The staker's reward since the last update: the bond times the growth of
/// the index, each product truncated.
pub open spec fn staker_reward(state: State, staker: StakerInfo) -> int {
    mul_decimal_floor(staker.bond_amount as int, state.global_reward_index) - mul_decimal_floor(
        staker.bond_amount as int,
        staker.reward_index,
    )
}

pub open spec fn compute_staker_reward_defined(state: State, staker: StakerInfo) -> bool {
    &&& mul_decimal_floor(staker.bond_amount as int, state.global_reward_index) <= u128::MAX
    &&& mul_decimal_floor(staker.bond_amount as int, staker.reward_index) <= u128::MAX
    &&& staker_reward(state, staker) >= 0 ==> staker.pending_reward + staker_reward(state, staker) <= u128::MAX
}

/// Moves the staker's reward since the last update into the pending reward
/// and brings the staker's index up to the global index. Fails where the
/// staker's index lies above the global one.
pub fn compute_staker_reward(state: &State, staker: &mut StakerInfo) -> (r: Result<(), ContractError>)
    requires
        compute_staker_reward_defined(*state, *old(staker)),
    ensures
        staker_reward(*state, *old(staker)) < 0 ==> r == Err::<(), ContractError>(ContractError::Underflow)
            && *final(staker) == *old(staker),
        staker_reward(*state, *old(staker)) >= 0 ==> r is Ok && *final(staker) == (StakerInfo {
            reward_index: state.global_reward_index,
            bond_amount: old(staker).bond_amount,
            pending_reward: (old(staker).pending_reward + staker_reward(*state, *old(staker))) as u128,
        }),
{
    let earned = mul_decimal(staker.bond_amount, state.global_reward_index);
    let paid = mul_decimal(staker.bond_amount, staker.reward_index);
    if earned < paid {
        return Err(ContractError::Underflow);
    }
    let pending_reward = earned - paid;
    staker.reward_index = state.global_reward_index;
    staker.pending_reward = staker.pending_reward + pending_reward;
    Ok(())
}

/// Adds `amount` to the staker's bond and to the pool's.
pub fn increase_bond_amount(state: &mut State, staker: &mut StakerInfo, amount: u128)
    requires
        old(state).total_bond_amount + amount <= u128::MAX,
        old(staker).bond_amount + amount <= u128::MAX,
    ensures
        *final(state) == (State { total_bond_amount: (old(state).total_bond_amount + amount) as u128, ..*old(state) }),
        *final(staker) == (StakerInfo { bond_amount: (old(staker).bond_amount + amount) as u128, ..*old(staker) }),
{
    state.total_bond_amount = state.total_bond_amount + amount;
    staker.bond_amount = staker.bond_amount + amount;
}

/// Takes `amount` from the pool's bond and from the staker's; fails where
/// either is smaller (the pool's is updated before the staker's is checked).
pub fn decrease_bond_amount(state: &mut State, staker: &mut StakerInfo, amount: u128) -> (r: Result<(), ContractError>)
    ensures
        old(state).total_bond_amount < amount ==> r == Err::<(), ContractError>(ContractError::Underflow)
            && *final(state) == *old(state) && *final(staker) == *old(staker),
        old(state).total_bond_amount >= amount ==> *final(state) == (State {
            total_bond_amount: (old(state).total_bond_amount - amount) as u128,
            ..*old(state)
        }),
        old(state).total_bond_amount >= amount && old(staker).bond_amount < amount ==> r == Err::<(), ContractError>(
            ContractError::Underflow,
        ) && *final(staker) == *old(staker),
        old(state).total_bond_amount >= amount && old(staker).bond_amount >= amount ==> r is Ok && *final(staker)
            == (StakerInfo { bond_amount: (old(staker).bond_amount - amount) as u128, ..*old(staker) }),
{
    if state.total_bond_amount < amount {
        return Err(ContractError::Underflow);
    }
    state.total_bond_amount = state.total_bond_amount - amount;
    if staker.bond_amount < amount {
        return Err(ContractError::Underflow);
    }
    staker.bond_amount = staker.bond_amount - amount;
    Ok(())
}


/// The staker after its reward since the last update is moved into its
/// pending reward.
pub open spec fn updated_staker(state: State, staker: StakerInfo) -> StakerInfo {
    StakerInfo {
        reward_index: state.global_reward_index,
        bond_amount: staker.bond_amount,
        pending_reward: (staker.pending_reward + staker_reward(state, staker)) as u128,
    }
}

/// The state of the pool and of a staker after an action, the tokens sent
/// to the staker, and whether the staker's record is kept (`None` removes it).
#[derive(Clone, Copy, Debug, PartialEq, Eq, Structural)]
pub struct StakingUpdate {
    pub state: State,
    pub staker: Option<StakerInfo>,
    pub amount: u128,
}

/// Distributing up to `height` and updating the staker do not panic.
pub open spec fn rewards_defined(config: Config, state: State, staker: StakerInfo, height: u64) -> bool {
    &&& compute_reward_defined(config.distribution_schedule@, state, height)
    &&& compute_staker_reward_defined(compute_reward_spec(config.distribution_schedule@, state, height), staker)
}

/// Whether distributing the rewards up to `block_height` can be done:
/// `compute_reward_defined`, tested.
pub fn compute_reward_is_defined(config: &Config, state: &State, block_height: u64) -> (b: bool)
    ensures
        b == compute_reward_defined(config.distribution_schedule@, *state, block_height),
{
    if state.total_bond_amount == 0 {
        return true;
    }
    if !total_released_is_defined(&config.distribution_schedule, state.last_distributed, block_height) {
        return false;
    }
    let released = total_released(&config.distribution_schedule, state.last_distributed, block_height);
    match checked_mul_div(released, DECIMAL_FRACTIONAL, state.total_bond_amount) {
        None => false,
        Some(growth) => growth <= u128::MAX - state.global_reward_index.atomics,
    }
}

/// Whether distributing up to `block_height` and updating the staker can be
/// done: `rewards_defined`, tested.
pub fn rewards_are_defined(config: &Config, state: &State, staker: &StakerInfo, block_height: u64) -> (b: bool)
    ensures
        b == rewards_defined(*config, *state, *staker, block_height),
{
    if !compute_reward_is_defined(config, state, block_height) {
        return false;
    }
    let mut st = *state;
    compute_reward(config, &mut st, block_height);
    let earned = match checked_mul_div(staker.bond_amount, st.global_reward_index.atomics, DECIMAL_FRACTIONAL) {
        Some(v) => v,
        None => {
            return false;
        },
    };
    let paid = match checked_mul_div(staker.bond_amount, staker.reward_index.atomics, DECIMAL_FRACTIONAL) {
        Some(v) => v,
        None => {
            return false;
        },
    };
    earned < paid || staker.pending_reward <= u128::MAX - (earned - paid)
}

/// Bonds `amount` staked tokens for a staker at block `height`: rewards are
/// distributed and the staker's reward is brought up to date first.
pub fn bond(config: &Config, state: State, staker: StakerInfo, block_height: u64, amount: u128) -> (r: Result<StakingUpdate, ContractError>)
    requires
        rewards_defined(*config, state, staker, block_height),
        state.total_bond_amount + amount <= u128::MAX,
        staker.bond_amount + amount <= u128::MAX,
    ensures
        ({
            let st = compute_reward_spec(config.distribution_schedule@, state, block_height);
            if staker_reward(st, staker) < 0 {
                r == Err::<StakingUpdate, ContractError>(ContractError::Underflow)
            } else {
                r == Ok::<StakingUpdate, ContractError>(StakingUpdate {
                    state: State { total_bond_amount: (state.total_bond_amount + amount) as u128, ..st },
                    staker: Some(StakerInfo {
                        bond_amount: (staker.bond_amount + amount) as u128,
                        ..updated_staker(st, staker)
                    }),
                    amount: 0,
                })
            }
        }),
{
    let mut state = state;
    let mut staker = staker;
    compute_reward(config, &mut state, block_height);
    compute_staker_reward(&state, &mut staker)?;
    increase_bond_amount(&mut state, &mut staker, amount);
    Ok(StakingUpdate { state, staker: Some(staker), amount: 0 })
}

/// Unbonds `amount` staked tokens of a staker at block `height` and sends
/// them back: the staker may not unbond more than its bond. Rewards are
/// brought up to date first; a staker left with neither bond nor pending
/// reward is removed.
pub fn unbond(config: &Config, state: State, staker: StakerInfo, block_height: u64, amount: u128) -> (r: Result<StakingUpdate, ContractError>)
    requires
        staker.bond_amount >= amount ==> rewards_defined(*config, state, staker, block_height),
    ensures
        staker.bond_amount < amount ==> r == Err::<StakingUpdate, ContractError>(
            ContractError::CannotUnbondMoreThanBondAmount,
        ),
        staker.bond_amount >= amount ==> ({
            let st = compute_reward_spec(config.distribution_schedule@, state, block_height);
            let sk = updated_staker(st, staker);
            if staker_reward(st, staker) < 0 || st.total_bond_amount < amount {
                r == Err::<StakingUpdate, ContractError>(ContractError::Underflow)
            } else {
                let sk2 = StakerInfo { bond_amount: (sk.bond_amount - amount) as u128, ..sk };
                r == Ok::<StakingUpdate, ContractError>(StakingUpdate {
                    state: State { total_bond_amount: (st.total_bond_amount - amount) as u128, ..st },
                    staker: if sk2.pending_reward == 0 && sk2.bond_amount == 0 { None } else { Some(sk2) },
                    amount,
                })
            }
        }),
{
    if staker.bond_amount < amount {
        return Err(ContractError::CannotUnbondMoreThanBondAmount);
    }
    let mut state = state;
    let mut staker = staker;
    compute_reward(config, &mut state, block_height);
    compute_staker_reward(&state, &mut staker)?;
    decrease_bond_amount(&mut state, &mut staker, amount)?;
    let kept = if staker.pending_reward == 0 && staker.bond_amount == 0 {
        None
    } else {
        Some(staker)
    };
    Ok(StakingUpdate { state, staker: kept, amount })
}

/// Withdraws a staker's rewards at block `height`: rewards are brought up to
/// date, the whole pending reward is sent, and a staker without bond is
/// removed.
pub fn withdraw(config: &Config, state: State, staker: StakerInfo, block_height: u64) -> (r: Result<StakingUpdate, ContractError>)
    requires
        rewards_defined(*config, state, staker, block_height),
    ensures
        ({
            let st = compute_reward_spec(config.distribution_schedule@, state, block_height);
            let sk = updated_staker(st, staker);
            if staker_reward(st, staker) < 0 {
                r == Err::<StakingUpdate, ContractError>(ContractError::Underflow)
            } else {
                let sk2 = StakerInfo { pending_reward: 0, ..sk };
                r == Ok::<StakingUpdate, ContractError>(StakingUpdate {
                    state: st,
                    staker: if sk2.bond_amount == 0 { None } else { Some(sk2) },
                    amount: sk.pending_reward,
                })
            }
        }),
{
    let mut state = state;
    let mut staker = staker;
    compute_reward(config, &mut state, block_height);
    compute_staker_reward(&state, &mut staker)?;
    let amount = staker.pending_reward;
    staker.pending_reward = 0;
    let kept = if staker.bond_amount == 0 { None } else { Some(staker) };
    Ok(StakingUpdate { state, staker: kept, amount })
}

/// The pool as of `block_height` where one is given (rewards distributed up
/// to it), as stored otherwise.
pub fn query_state(config: &Config, state: State, block_height: Option<u64>) -> (r: State)
    requires
        block_height matches Some(h) ==> compute_reward_defined(config.distribution_schedule@, state, h),
    ensures
        r == match block_height {
            Some(h) => compute_reward_spec(config.distribution_schedule@, state, h),
            None => state,
        },
{
    let mut state = state;
    match block_height {
        Some(h) => compute_reward(config, &mut state, h),
        None => {},
    }
    state
}

/// A staker as of `block_height` where one is given (its reward brought up
/// to date), as stored otherwise.
pub fn query_staker_info(config: &Config, state: State, staker: StakerInfo, block_height: Option<u64>) -> (r: Result<StakerInfo, ContractError>)
    requires
        block_height matches Some(h) ==> rewards_defined(*config, state, staker, h),
    ensures
        r == match block_height {
            Some(h) => {
                let st = compute_reward_spec(config.distribution_schedule@, state, h);
                if staker_reward(st, staker) < 0 {
                    Err::<StakerInfo, ContractError>(ContractError::Underflow)
                } else {
                    Ok(updated_staker(st, staker))
                }
            },
            None => Ok(staker),
        },
{
    match block_height {
        Some(h) => {
            let mut state = state;
            let mut staker = staker;
            compute_reward(config, &mut state, h);
            compute_staker_reward(&state, &mut staker)?;
            Ok(staker)
        },
        None => Ok(staker),
    }
}

/// Bringing a staker up to date twice in a row earns nothing the second time.
pub proof fn lemma_staker_reward_idempotent(state: State, staker: StakerInfo)
    requires
        staker_reward(state, staker) >= 0,
    ensures
        staker_reward(state, updated_staker(state, staker)) == 0,
        updated_staker(state, updated_staker(state, staker)) == updated_staker(state, staker),
{
}

/// Distributing rewards twice at the same block distributes nothing the
/// second time: the pool is left as the first distribution left it.
pub proof fn lemma_compute_reward_idempotent(ss: Seq<Schedule>, state: State, height: u64)
    ensures
        compute_reward_spec(ss, compute_reward_spec(ss, state, height), height) == compute_reward_spec(
            ss,
            state,
            height,
        ),
{
    lemma_no_release_over_empty_range(ss, height);
    let st = compute_reward_spec(ss, state, height);
    if st.total_bond_amount != 0 {
        assert(0 * crate::math::DECIMAL_FRACTIONAL == 0) by (nonlinear_arith);
    }
}


/// In one distribution, a staker whose reward was up to date earns less than
/// its bond's share of what was released, plus one token; a staker that holds
/// the whole pool earns at most what was released.
pub proof fn lemma_staker_reward_within_share(ss: Seq<Schedule>, state: State, staker: StakerInfo, height: u64)
    requires
        state.total_bond_amount != 0,
        state.last_distributed <= height,
        staker.reward_index == state.global_reward_index,
        compute_reward_defined(ss, state, height),
    ensures
        staker_reward(compute_reward_spec(ss, state, height), staker) * state.total_bond_amount
            < staker.bond_amount * total_release(ss, state.last_distributed, height) + state.total_bond_amount,
        staker.bond_amount == state.total_bond_amount ==> staker_reward(compute_reward_spec(ss, state, height), staker)
            <= total_release(ss, state.last_distributed, height),
{
    let r = total_release(ss, state.last_distributed, height);
    let t = state.total_bond_amount as int;
    let b = staker.bond_amount as int;
    let f = DECIMAL_FRACTIONAL as int;
    crate::schedule::lemma_total_release_bounded(ss, state.last_distributed, height);
    lemma_index_growth_share(b, state.global_reward_index.atomics as int, r, t, f);
    let d = staker_reward(compute_reward_spec(ss, state, height), staker);
    if b == t {
        assert(d <= r) by (nonlinear_arith)
            requires d * t < b * r + t, b == t, t > 0;
    }
}

/// A received token message may bond: it must carry data, and only the
/// staking token may send it.
pub fn receive_cw20(config: &Config, sender: &String, has_msg: bool) -> (r: Result<(), ContractError>)
    ensures
        !has_msg ==> r == Err::<(), ContractError>(ContractError::DataShouldBeGiven),
        has_msg && config.staking_token@ != sender@ ==> r == Err::<(), ContractError>(ContractError::Unauthorized),
        has_msg && config.staking_token@ == sender@ ==> r is Ok,
{
    if !has_msg {
        return Err(ContractError::DataShouldBeGiven);
    }
    if !config.staking_token.eq(sender) {
        return Err(ContractError::Unauthorized);
    }
    Ok(())
}

} // verus!
