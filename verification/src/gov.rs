//! Governance staking: ANC staked for shares of the contract's balance,
//! voting rewards shared among the voters of finished polls, and the
//! messages that keep the voting escrow in step with the shares.
use vstd::prelude::*;
use crate::math::{
    Decimal, DECIMAL_FRACTIONAL, checked_mul_div, checked_mul_div_ceil, lemma_floor_split, mul_decimal, mul_decimal_floor,
    mul_div_ceil, mul_div_floor, multiply_ratio, multiply_ratio_ceil,
};

verus! {

/// The errors governance staking answers with.
#[derive(Clone, Copy, Debug, PartialEq, Eq, Structural)]
pub enum ContractError {
    /// An arithmetic overflow (a subtraction below zero).
    Overflow,
    InsufficientFunds,
    InsufficientReward,
    NothingStaked,
    InvalidWithdrawAmount,
    NothingToWithdraw,
    PollInProgress,
    RewardDepositedTooSmall,
}

#[derive(Clone, Copy, Debug, PartialEq, Eq, Structural)]
pub enum PollStatus {
    InProgress,
    Passed,
    Rejected,
    Executed,
    Expired,
    Failed,
}

#[derive(Clone, Copy, Debug, PartialEq, Eq, Structural)]
pub enum VoteOption {
    Yes,
    No,
}

/// A poll, as far as staking reads it.
#[derive(Clone, Copy, Debug, PartialEq, Eq, Structural)]
pub struct Poll {
    pub id: u64,
    pub status: PollStatus,
    pub yes_votes: u128,
    pub no_votes: u128,
    pub voters_reward: u128,
}

/// A voter's vote in a poll.
#[derive(Clone, Copy, Debug, PartialEq, Eq, Structural)]
pub struct VoterInfo {
    pub vote: VoteOption,
    pub balance: u128,
}

/// A poll a staker voted in and the vote.
#[derive(Clone, Copy, Debug, PartialEq, Eq, Structural)]
pub struct LockedBalance {
    pub poll_id: u64,
    pub voter_info: VoterInfo,
}

/// A staker's shares and the polls it voted in.
#[derive(Clone, Debug, PartialEq, Eq)]
pub struct TokenManager {
    pub share: u128,
    pub locked_balance: Vec<LockedBalance>,
}

/// The staking pool: shares issued, deposits held for polls and voting
/// rewards not yet withdrawn.
#[derive(Clone, Copy, Debug, PartialEq, Eq, Structural)]
pub struct State {
    pub poll_count: u64,
    pub total_share: u128,
    pub total_deposit: u128,
    pub pending_voting_rewards: u128,
}

/// The ANC of the pool that backs shares: the contract's balance less the
/// deposits and pending rewards it holds.
pub open spec fn staked_balance(balance: u128, state: State) -> int {
    balance - (state.total_deposit + state.pending_voting_rewards)
}

/// The shares `amount` buys out of a staked balance `total_balance`: one for
/// one in an empty pool, pro rata otherwise.
pub open spec fn shares_for(amount: u128, total_share: u128, total_balance: int) -> int {
    if total_balance == 0 || total_share == 0 {
        amount as int
    } else {
        mul_div_floor(amount as int, total_share as int, total_balance)
    }
}

/// Staking `amount` ANC does not panic.
pub open spec fn extend_lock_amount_defined(share: u128, state: State, balance: u128, amount: u128) -> bool {
    let staked = balance - (state.total_deposit + state.pending_voting_rewards + amount);
    &&& state.total_deposit + state.pending_voting_rewards + amount <= u128::MAX
    &&& staked >= 0 ==> {
        &&& shares_for(amount, state.total_share, staked) <= u128::MAX
        &&& share + shares_for(amount, state.total_share, staked) <= u128::MAX
        &&& state.total_share + shares_for(amount, state.total_share, staked) <= u128::MAX
    }
}

/// Whether staking `amount` ANC can be done: `extend_lock_amount_defined`,
/// tested.
pub fn extend_lock_amount_is_defined(share: u128, state: State, balance: u128, amount: u128) -> (b: bool)
    ensures
        b == extend_lock_amount_defined(share, state, balance, amount),
{
    if state.total_deposit > u128::MAX - state.pending_voting_rewards {
        return false;
    }
    let locked = state.total_deposit + state.pending_voting_rewards;
    if locked > u128::MAX - amount {
        return false;
    }
    if balance < locked + amount {
        return true;
    }
    let staked = balance - (locked + amount);
    let issued = if staked == 0 || state.total_share == 0 {
        amount
    } else {
        match checked_mul_div(amount, state.total_share, staked) {
            Some(v) => v,
            None => {
                return false;
            },
        }
    };
    share <= u128::MAX - issued && state.total_share <= u128::MAX - issued
}

/// A stake: the staker's new share count, the pool after it, and the shares
/// issued (the voting escrow lock grows by them).
#[derive(Clone, Copy, Debug, PartialEq, Eq, Structural)]
pub struct Stake {
    pub share: u128,
    pub state: State,
    pub issued: u128,
}

/// Stakes `amount` ANC, already received into the contract's balance
/// `balance`: the staker gets the shares it buys at the pool's price before
/// the deposit. A zero amount, or one too small to buy a share, is refused;
/// a balance below the tokens held fails.
pub fn extend_lock_amount(share: u128, state: State, balance: u128, amount: u128) -> (r: Result<Stake, ContractError>)
    requires
        extend_lock_amount_defined(share, state, balance, amount),
    ensures
        amount == 0 ==> r == Err::<Stake, ContractError>(ContractError::InsufficientFunds),
        amount != 0 && staked_balance(balance, state) - amount < 0 ==> r == Err::<Stake, ContractError>(
            ContractError::Overflow,
        ),
        amount != 0 && staked_balance(balance, state) - amount >= 0 ==> ({
            let issued = shares_for(amount, state.total_share, staked_balance(balance, state) - amount);
            if issued == 0 {
                r == Err::<Stake, ContractError>(ContractError::InsufficientFunds)
            } else {
                r == Ok::<Stake, ContractError>(Stake {
                    share: (share + issued) as u128,
                    state: State { total_share: (state.total_share + issued) as u128, ..state },
                    issued: issued as u128,
                })
            }
        }),
{
    if amount == 0 {
        return Err(ContractError::InsufficientFunds);
    }
    let total_locked_balance = state.total_deposit + state.pending_voting_rewards;
    if balance < total_locked_balance + amount {
        return Err(ContractError::Overflow);
    }
    let total_balance = balance - (total_locked_balance + amount);
    let issued = if total_balance == 0 || state.total_share == 0 {
        amount
    } else {
        multiply_ratio(amount, state.total_share, total_balance)
    };
    if issued == 0 {
        return Err(ContractError::InsufficientFunds);
    }
    let mut state = state;
    state.total_share = state.total_share + issued;
    Ok(Stake { share: share + issued, state, issued })
}

/// What extending the lock time sends besides the time extension itself.
#[derive(Clone, Copy, Debug, PartialEq, Eq, Structural)]
pub struct LockTimeExtension {
    /// The amount the voting escrow lock is raised to match the shares.
    pub extend_amount: Option<u128>,
    /// The staker is marked as in step with the voting escrow.
    pub mark_synced: bool,
}

/// Extends the staker's voting escrow lock time; a staker not yet in step
/// with the voting escrow also has its shares locked there (where it has
/// any) and is marked in step.
pub fn extend_lock_time(is_synced: Option<bool>, share: u128) -> (r: LockTimeExtension)
    ensures
        r == (if is_synced == Some(true) {
            LockTimeExtension { extend_amount: None, mark_synced: false }
        } else {
            LockTimeExtension {
                extend_amount: if share != 0 { Some(share) } else { None },
                mark_synced: true,
            }
        }),
{
    let synced = match is_synced {
        Some(b) => b,
        None => false,
    };
    if !synced {
        LockTimeExtension { extend_amount: if share != 0 { Some(share) } else { None }, mark_synced: true }
    } else {
        LockTimeExtension { extend_amount: None, mark_synced: false }
    }
}

/// The reward each poll in progress gets out of a deposit of `amount`.
pub open spec fn reward_per_poll(amount: u128, voter_weight: Decimal, n: nat) -> int {
    mul_decimal_floor(amount as int, voter_weight) / (n as int)
}

/// Depositing the reward does not panic.
pub open spec fn deposit_reward_defined(voter_weight: Decimal, polls: Seq<Poll>, state: State, amount: u128) -> bool {
    voter_weight.atomics != 0 && polls.len() != 0 ==> {
        &&& mul_decimal_floor(amount as int, voter_weight) <= u128::MAX
        &&& forall|i: int|
            0 <= i < polls.len() ==> (#[trigger] polls[i]).voters_reward + reward_per_poll(
                amount,
                voter_weight,
                polls.len(),
            ) <= u128::MAX
        &&& state.pending_voting_rewards + mul_decimal_floor(amount as int, voter_weight) <= u128::MAX
    }
}

/// Whether depositing `amount` ANC of rewards can be done:
/// `deposit_reward_defined`, tested.
pub fn deposit_reward_is_defined(voter_weight: Decimal, polls_in_progress: &Vec<Poll>, state: State, amount: u128) -> (b: bool)
    ensures
        b == deposit_reward_defined(voter_weight, polls_in_progress@, state, amount),
{
    if voter_weight.is_zero() || polls_in_progress.len() == 0 {
        return true;
    }
    let voter_rewards = match checked_mul_div(amount, voter_weight.atomics, DECIMAL_FRACTIONAL) {
        Some(v) => v,
        None => {
            return false;
        },
    };
    let per_poll = voter_rewards / (polls_in_progress.len() as u128);
    let mut i: usize = 0;
    while i < polls_in_progress.len()
        invariant
            i <= polls_in_progress@.len(),
            polls_in_progress@.len() != 0,
            per_poll == reward_per_poll(amount, voter_weight, polls_in_progress@.len()),
            forall|j: int|
                0 <= j < i ==> (#[trigger] polls_in_progress@[j]).voters_reward + per_poll <= u128::MAX,
        decreases polls_in_progress@.len() - i,
    {
        if polls_in_progress[i].voters_reward > u128::MAX - per_poll {
            return false;
        }
        i = i + 1;
    }
    state.pending_voting_rewards <= u128::MAX - voter_rewards
}

/// Deposits `amount` ANC of rewards: the voters' part (`amount *
/// voter_weight`) is split evenly among the polls in progress and added to
/// the pending voting rewards. With no voters' part or no poll in
/// progress, nothing changes; a part too small to give each poll something
/// is refused.
pub fn deposit_reward(voter_weight: Decimal, polls_in_progress: Vec<Poll>, state: State, amount: u128) -> (r: Result<
    (Vec<Poll>, State),
    ContractError,
>)
    requires
        deposit_reward_defined(voter_weight, polls_in_progress@, state, amount),
    ensures
        voter_weight.atomics == 0 || polls_in_progress@.len() == 0 ==> (r matches Ok((ps, st)) && ps@
            == polls_in_progress@ && st == state),
        voter_weight.atomics != 0 && polls_in_progress@.len() != 0 && reward_per_poll(
            amount,
            voter_weight,
            polls_in_progress@.len(),
        ) == 0 ==> r == Err::<(Vec<Poll>, State), ContractError>(ContractError::RewardDepositedTooSmall),
        voter_weight.atomics != 0 && polls_in_progress@.len() != 0 && reward_per_poll(
            amount,
            voter_weight,
            polls_in_progress@.len(),
        ) != 0 ==> (r matches Ok((ps, st)) && ps@.len() == polls_in_progress@.len() && (forall|i: int|
            0 <= i < ps@.len() ==> #[trigger] ps@[i] == (Poll {
                voters_reward: (polls_in_progress@[i].voters_reward + reward_per_poll(
                    amount,
                    voter_weight,
                    polls_in_progress@.len(),
                )) as u128,
                ..polls_in_progress@[i]
            })) && st == (State {
            pending_voting_rewards: (state.pending_voting_rewards + mul_decimal_floor(amount as int, voter_weight))
                as u128,
            ..state
        })),
{
    if voter_weight.is_zero() || polls_in_progress.len() == 0 {
        return Ok((polls_in_progress, state));
    }
    let voter_rewards = mul_decimal(amount, voter_weight);
    proof {
        assert(mul_div_floor(voter_rewards as int, 1, polls_in_progress@.len() as int) == voter_rewards as int
            / (polls_in_progress@.len() as int));
        vstd::arithmetic::div_mod::lemma_div_is_ordered_by_denominator(
            voter_rewards as int,
            1,
            polls_in_progress@.len() as int,
        );
    }
    let rewards_per_poll = multiply_ratio(voter_rewards, 1, polls_in_progress.len() as u128);
    if rewards_per_poll == 0 {
        return Err(ContractError::RewardDepositedTooSmall);
    }
    let ghost ps = polls_in_progress@;
    let mut polls = polls_in_progress;
    let mut i: usize = 0;
    while i < polls.len()
        invariant
            polls@.len() == ps.len(),
            i <= ps.len(),
            rewards_per_poll == reward_per_poll(amount, voter_weight, ps.len()),
            forall|k: int| 0 <= k < ps.len() ==> (#[trigger] ps[k]).voters_reward + rewards_per_poll <= u128::MAX,
            forall|j: int|
                0 <= j < i ==> #[trigger] polls@[j] == (Poll {
                    voters_reward: (ps[j].voters_reward + rewards_per_poll) as u128,
                    ..ps[j]
                }),
            forall|j: int| i <= j < ps.len() ==> #[trigger] polls@[j] == ps[j],
        decreases ps.len() - i,
    {
        let mut poll = polls[i];
        poll.voters_reward = poll.voters_reward + rewards_per_poll;
        polls.set(i, poll);
        i = i + 1;
    }
    let mut state = state;
    state.pending_voting_rewards = state.pending_voting_rewards + voter_rewards;
    Ok((polls, state))
}

/// The rewards handed to the polls never exceed the voters' part added to
/// the pending rewards.
pub proof fn lemma_deposit_reward_bounded(amount: u128, voter_weight: Decimal, n: nat)
    requires
        n > 0,
    ensures
        reward_per_poll(amount, voter_weight, n) * n <= mul_decimal_floor(amount as int, voter_weight),
{
    let v = mul_decimal_floor(amount as int, voter_weight);
    assert(v >= 0) by {
        assert(amount * voter_weight.atomics >= 0) by (nonlinear_arith);
        vstd::arithmetic::div_mod::lemma_div_pos_is_pos(
            amount * voter_weight.atomics,
            crate::math::DECIMAL_FRACTIONAL as int,
        );
    }
    vstd::arithmetic::div_mod::lemma_fundamental_div_mod(v, n as int);
    assert((v / (n as int)) * n == (n as int) * (v / (n as int))) by (nonlinear_arith);
}


/// A poll of the staker's locked balance, with the staker's vote there where
/// it is still recorded.
#[derive(Clone, Copy, Debug, PartialEq, Eq, Structural)]
pub struct PollVote {
    pub poll: Poll,
    pub voter_info: Option<VoterInfo>,
}

/// A poll whose voting reward a voter may withdraw, and the vote.
#[derive(Clone, Copy, Debug, PartialEq, Eq, Structural)]
pub struct WithdrawablePoll {
    pub poll: Poll,
    pub voter_info: VoterInfo,
}

/// A poll's reward can be withdrawn: it has finished, the vote is recorded
/// and it carries a reward.
pub open spec fn is_withdrawable(pv: PollVote) -> bool {
    pv.poll.status != PollStatus::InProgress && pv.voter_info is Some && pv.poll.voters_reward != 0
}

/// The polls of `pvs` whose rewards can be withdrawn, in order.
pub open spec fn withdrawable(pvs: Seq<PollVote>) -> Seq<WithdrawablePoll>
    decreases pvs.len(),
{
    if pvs.len() == 0 {
        Seq::empty()
    } else if is_withdrawable(pvs.last()) {
        withdrawable(pvs.drop_last()).push(
            WithdrawablePoll { poll: pvs.last().poll, voter_info: pvs.last().voter_info.unwrap() },
        )
    } else {
        withdrawable(pvs.drop_last())
    }
}

/// The polls whose voting rewards a staker may withdraw, out of the polls of
/// its locked balance: the finished ones that carry a reward and still hold
/// the staker's vote.
pub fn get_withdrawable_polls(poll_votes: &Vec<PollVote>) -> (r: Vec<WithdrawablePoll>)
    ensures
        r@ == withdrawable(poll_votes@),
{
    let mut out: Vec<WithdrawablePoll> = Vec::new();
    let mut i: usize = 0;
    while i < poll_votes.len()
        invariant
            i <= poll_votes@.len(),
            out@ == withdrawable(poll_votes@.take(i as int)),
        decreases poll_votes@.len() - i,
    {
        let pv = poll_votes[i];
        proof {
            assert(poll_votes@.take(i + 1).drop_last() =~= poll_votes@.take(i as int));
        }
        let in_progress = match pv.poll.status {
            PollStatus::InProgress => true,
            _ => false,
        };
        if !in_progress && pv.poll.voters_reward != 0 {
            match pv.voter_info {
                Some(vi) => {
                    out.push(WithdrawablePoll { poll: pv.poll, voter_info: vi });
                },
                None => {},
            }
        }
        i = i + 1;
    }
    proof {
        assert(poll_votes@.take(poll_votes@.len() as int) =~= poll_votes@);
    }
    out
}

/// A voter's share of a poll's reward: the reward times the voter's balance
/// over all votes cast, truncated.
pub open spec fn poll_reward(w: WithdrawablePoll) -> int {
    mul_div_floor(w.poll.voters_reward as int, w.voter_info.balance as int, w.poll.yes_votes + w.poll.no_votes)
}

pub open spec fn poll_reward_defined(w: WithdrawablePoll) -> bool {
    &&& 0 < w.poll.yes_votes + w.poll.no_votes <= u128::MAX
    &&& poll_reward(w) <= u128::MAX
}

/// A voter's rewards over the polls `ws`.
pub open spec fn total_poll_reward(ws: Seq<WithdrawablePoll>) -> int
    decreases ws.len(),
{
    if ws.len() == 0 { 0 } else { total_poll_reward(ws.drop_last()) + poll_reward(ws.last()) }
}

/// Summing the rewards does not panic.
pub open spec fn rewards_sum_defined(ws: Seq<WithdrawablePoll>) -> bool {
    &&& forall|i: int| 0 <= i < ws.len() ==> poll_reward_defined(#[trigger] ws[i])
    &&& forall|k: int| 0 <= k <= ws.len() ==> #[trigger] total_poll_reward(ws.take(k)) <= u128::MAX
}

/// Whether a voter's rewards over the polls `ws` can be summed:
/// `rewards_sum_defined`, tested.
pub fn rewards_sum_is_defined(ws: &Vec<WithdrawablePoll>) -> (b: bool)
    ensures
        b == rewards_sum_defined(ws@),
{
    let mut total: u128 = 0;
    let mut i: usize = 0;
    while i < ws.len()
        invariant
            i <= ws@.len(),
            forall|j: int| 0 <= j < i ==> poll_reward_defined(#[trigger] ws@[j]),
            forall|k: int| 0 <= k <= i ==> #[trigger] total_poll_reward(ws@.take(k)) <= u128::MAX,
            total == total_poll_reward(ws@.take(i as int)),
        decreases ws@.len() - i,
    {
        let w = ws[i];
        proof {
            assert(ws@.take(i + 1).drop_last() =~= ws@.take(i as int));
        }
        if w.poll.yes_votes > u128::MAX - w.poll.no_votes || w.poll.yes_votes + w.poll.no_votes == 0 {
            return false;
        }
        let reward = match checked_mul_div(w.poll.voters_reward, w.voter_info.balance, w.poll.no_votes + w.poll.yes_votes) {
            Some(v) => v,
            None => {
                return false;
            },
        };
        if total > u128::MAX - reward {
            proof {
                assert(total_poll_reward(ws@.take(i + 1)) > u128::MAX);
            }
            return false;
        }
        total = total + reward;
        i = i + 1;
    }
    proof {
        assert(ws@.take(ws@.len() as int) =~= ws@);
    }
    true
}

/// A voter's rewards over the polls `ws` and the polls' ids.
pub fn withdraw_user_voting_rewards(ws: &Vec<WithdrawablePoll>) -> (r: (u128, Vec<u64>))
    requires
        rewards_sum_defined(ws@),
    ensures
        r.0 == total_poll_reward(ws@),
        r.1@.len() == ws@.len(),
        forall|i: int| 0 <= i < ws@.len() ==> #[trigger] r.1@[i] == ws@[i].poll.id,
{
    let mut total: u128 = 0;
    let mut ids: Vec<u64> = Vec::new();
    let mut i: usize = 0;
    while i < ws.len()
        invariant
            i <= ws@.len(),
            rewards_sum_defined(ws@),
            total == total_poll_reward(ws@.take(i as int)),
            ids@.len() == i,
            forall|j: int| 0 <= j < i ==> #[trigger] ids@[j] == ws@[j].poll.id,
        decreases ws@.len() - i,
    {
        let w = ws[i];
        proof {
            assert(ws@.take(i + 1).drop_last() =~= ws@.take(i as int));
            assert(poll_reward_defined(ws@[i as int]));
            assert(total_poll_reward(ws@.take(i + 1)) <= u128::MAX);
        }
        let total_votes = w.poll.no_votes + w.poll.yes_votes;
        let reward = multiply_ratio(w.poll.voters_reward, w.voter_info.balance, total_votes);
        total = total + reward;
        ids.push(w.poll.id);
        i = i + 1;
    }
    proof {
        assert(ws@.take(ws@.len() as int) =~= ws@);
    }
    (total, ids)
}

/// The balances of the votes `vs`, summed.
pub open spec fn votes_balance(vs: Seq<VoterInfo>) -> int
    decreases vs.len(),
{
    if vs.len() == 0 { 0 } else { votes_balance(vs.drop_last()) + vs.last().balance }
}

/// The voting rewards the voters `vs` of poll `p` withdraw, summed.
pub open spec fn voters_rewards(p: Poll, vs: Seq<VoterInfo>) -> int
    decreases vs.len(),
{
    if vs.len() == 0 {
        0
    } else {
        voters_rewards(p, vs.drop_last()) + poll_reward(WithdrawablePoll { poll: p, voter_info: vs.last() })
    }
}

proof fn lemma_voters_rewards_floor(p: Poll, vs: Seq<VoterInfo>)
    requires
        p.yes_votes + p.no_votes > 0,
    ensures
        votes_balance(vs) >= 0,
        voters_rewards(p, vs) <= (votes_balance(vs) * p.voters_reward) / (p.yes_votes + p.no_votes),
    decreases vs.len(),
{
    if vs.len() > 0 {
        let t = p.yes_votes + p.no_votes;
        let r = p.voters_reward as int;
        let b = vs.last().balance as int;
        lemma_voters_rewards_floor(p, vs.drop_last());
        lemma_floor_split(votes_balance(vs.drop_last()), b, r, t);
        assert(r * b == b * r) by (nonlinear_arith);
    }
}

/// A poll never pays out more than its reward: its voters, whose balances
/// add up to at most the votes cast, together withdraw at most the poll's
/// voting reward.
pub proof fn lemma_voters_rewards_bounded(p: Poll, vs: Seq<VoterInfo>)
    requires
        p.yes_votes + p.no_votes > 0,
        votes_balance(vs) <= p.yes_votes + p.no_votes,
    ensures
        voters_rewards(p, vs) <= p.voters_reward,
{
    let t = p.yes_votes + p.no_votes;
    let r = p.voters_reward as int;
    lemma_voters_rewards_floor(p, vs);
    assert(votes_balance(vs) * r <= t * r) by (nonlinear_arith)
        requires votes_balance(vs) <= t, r >= 0;
    vstd::arithmetic::div_mod::lemma_div_is_ordered(votes_balance(vs) * r, t * r, t);
    vstd::arithmetic::div_mod::lemma_div_multiples_vanish(r, t);
}

/// Picks one poll to withdraw the reward of: it must have finished and carry
/// a reward.
pub fn select_poll(poll: Poll, voter_info: VoterInfo) -> (r: Result<WithdrawablePoll, ContractError>)
    ensures
        poll.status == PollStatus::InProgress ==> r == Err::<WithdrawablePoll, ContractError>(
            ContractError::PollInProgress,
        ),
        poll.status != PollStatus::InProgress && poll.voters_reward == 0 ==> r == Err::<
            WithdrawablePoll,
            ContractError,
        >(ContractError::InsufficientReward),
        poll.status != PollStatus::InProgress && poll.voters_reward != 0 ==> r == Ok::<
            WithdrawablePoll,
            ContractError,
        >(WithdrawablePoll { poll, voter_info }),
{
    match poll.status {
        PollStatus::InProgress => {
            return Err(ContractError::PollInProgress);
        },
        _ => {},
    }
    if poll.voters_reward == 0 {
        return Err(ContractError::InsufficientReward);
    }
    Ok(WithdrawablePoll { poll, voter_info })
}

/// The locked balance without the polls whose ids are in `ids`, in order.
pub open spec fn without_polls(lb: Seq<LockedBalance>, ids: Seq<u64>) -> Seq<LockedBalance>
    decreases lb.len(),
{
    if lb.len() == 0 {
        lb
    } else if ids.contains(lb.last().poll_id) {
        without_polls(lb.drop_last(), ids)
    } else {
        without_polls(lb.drop_last(), ids).push(lb.last())
    }
}

fn contains_id(ids: &Vec<u64>, id: u64) -> (b: bool)
    ensures
        b == ids@.contains(id),
{
    let mut i: usize = 0;
    while i < ids.len()
        invariant
            i <= ids@.len(),
            forall|j: int| 0 <= j < i ==> ids@[j] != id,
        decreases ids@.len() - i,
    {
        if ids[i] == id {
            return true;
        }
        i = i + 1;
    }
    false
}

/// Drops the polls whose ids are in `ids` from a locked balance.
pub fn retain_unwithdrawn(locked_balance: &Vec<LockedBalance>, ids: &Vec<u64>) -> (r: Vec<LockedBalance>)
    ensures
        r@ == without_polls(locked_balance@, ids@),
{
    let mut out: Vec<LockedBalance> = Vec::new();
    let mut i: usize = 0;
    while i < locked_balance.len()
        invariant
            i <= locked_balance@.len(),
            out@ == without_polls(locked_balance@.take(i as int), ids@),
        decreases locked_balance@.len() - i,
    {
        proof {
            assert(locked_balance@.take(i + 1).drop_last() =~= locked_balance@.take(i as int));
        }
        let lb = locked_balance[i];
        if !contains_id(ids, lb.poll_id) {
            out.push(lb);
        }
        i = i + 1;
    }
    proof {
        assert(locked_balance@.take(locked_balance@.len() as int) =~= locked_balance@);
    }
    out
}

/// A withdrawal of voting rewards: the staker's locked balance after it,
/// the pool after it, the amount sent and the polls whose vote records are
/// removed.
#[derive(Clone, Debug, PartialEq, Eq)]
pub struct RewardWithdrawal {
    pub locked_balance: Vec<LockedBalance>,
    pub state: State,
    pub amount: u128,
    pub polls: Vec<u64>,
}

/// Withdraws a staker's voting rewards over the polls `ws`: nothing to
/// withdraw is refused; the polls are dropped from the locked balance and
/// the amount from the pending rewards (which must cover it).
pub fn withdraw_voting_rewards(token_manager: Option<TokenManager>, state: State, ws: &Vec<WithdrawablePoll>) -> (r: Result<
    RewardWithdrawal,
    ContractError,
>)
    requires
        rewards_sum_defined(ws@),
    ensures
        token_manager is None ==> r == Err::<RewardWithdrawal, ContractError>(ContractError::NothingStaked),
        token_manager is Some && total_poll_reward(ws@) == 0 ==> r == Err::<RewardWithdrawal, ContractError>(
            ContractError::NothingToWithdraw,
        ),
        token_manager is Some && total_poll_reward(ws@) != 0 && state.pending_voting_rewards < total_poll_reward(
            ws@,
        ) ==> r == Err::<RewardWithdrawal, ContractError>(ContractError::Overflow),
        token_manager matches Some(tm) ==> (total_poll_reward(ws@) != 0 && state.pending_voting_rewards
            >= total_poll_reward(ws@) ==> (r matches Ok(w) && w.amount == total_poll_reward(ws@) && w.state == (State {
            pending_voting_rewards: (state.pending_voting_rewards - total_poll_reward(ws@)) as u128,
            ..state
        }) && w.polls@.len() == ws@.len() && (forall|i: int| 0 <= i < ws@.len() ==> #[trigger] w.polls@[i] == ws@[i].poll.id)
            && w.locked_balance@ == without_polls(tm.locked_balance@, w.polls@))),
{
    let tm = match token_manager {
        Some(tm) => tm,
        None => {
            return Err(ContractError::NothingStaked);
        },
    };
    let (amount, polls) = withdraw_user_voting_rewards(ws);
    if amount == 0 {
        return Err(ContractError::NothingToWithdraw);
    }
    let locked_balance = retain_unwithdrawn(&tm.locked_balance, &polls);
    if state.pending_voting_rewards < amount {
        return Err(ContractError::Overflow);
    }
    let mut state = state;
    state.pending_voting_rewards = state.pending_voting_rewards - amount;
    Ok(RewardWithdrawal { locked_balance, state, amount, polls })
}


/// A poll keeps its place in a staker's locked balance while it is in
/// progress or carries a reward.
pub open spec fn keeps_vote(p: Poll) -> bool {
    p.status == PollStatus::InProgress || p.voters_reward != 0
}

/// The entries of the locked balance `lb` whose polls (`ps`, one per entry)
/// are kept, in order.
pub open spec fn kept_votes(lb: Seq<LockedBalance>, ps: Seq<Poll>) -> Seq<LockedBalance>
    decreases lb.len(),
{
    if lb.len() == 0 || ps.len() != lb.len() {
        Seq::empty()
    } else if keeps_vote(ps.last()) {
        kept_votes(lb.drop_last(), ps.drop_last()).push(lb.last())
    } else {
        kept_votes(lb.drop_last(), ps.drop_last())
    }
}

/// The ids of the polls whose vote records are dropped, in order.
pub open spec fn dropped_votes(lb: Seq<LockedBalance>, ps: Seq<Poll>) -> Seq<u64>
    decreases lb.len(),
{
    if lb.len() == 0 || ps.len() != lb.len() {
        Seq::empty()
    } else if keeps_vote(ps.last()) {
        dropped_votes(lb.drop_last(), ps.drop_last())
    } else {
        dropped_votes(lb.drop_last(), ps.drop_last()).push(lb.last().poll_id)
    }
}

/// Every vote record a withdrawal keeps came from the locked balance with a
/// poll that keeps it; every poll id it drops came from an entry whose poll
/// does not.
proof fn lemma_split_votes_origin(lb: Seq<LockedBalance>, ps: Seq<Poll>)
    requires
        lb.len() == ps.len(),
    ensures
        forall|x: LockedBalance|
            #[trigger] kept_votes(lb, ps).contains(x) ==> exists|j: int|
                0 <= j < lb.len() && lb[j] == x && keeps_vote(#[trigger] ps[j]),
        forall|id: u64|
            #[trigger] dropped_votes(lb, ps).contains(id) ==> exists|j: int|
                0 <= j < lb.len() && (#[trigger] lb[j]).poll_id == id && !keeps_vote(ps[j]),
    decreases lb.len(),
{
    if lb.len() > 0 {
        let lb0 = lb.drop_last();
        let ps0 = ps.drop_last();
        lemma_split_votes_origin(lb0, ps0);
        let n = lb.len() - 1;
        assert forall|x: LockedBalance| #[trigger] kept_votes(lb, ps).contains(x) implies exists|j: int|
            0 <= j < lb.len() && lb[j] == x && keeps_vote(#[trigger] ps[j]) by {
            if keeps_vote(ps.last()) {
                let k = kept_votes(lb0, ps0);
                let idx = choose|idx: int| 0 <= idx < k.push(lb.last()).len() && k.push(lb.last())[idx] == x;
                if idx == k.len() {
                    assert(lb[n] == x && keeps_vote(ps[n]));
                } else {
                    assert(k.contains(x));
                    let j = choose|j: int| 0 <= j < lb0.len() && lb0[j] == x && keeps_vote(#[trigger] ps0[j]);
                    assert(lb[j] == x && keeps_vote(ps[j]));
                }
            } else {
                assert(kept_votes(lb0, ps0).contains(x));
                let j = choose|j: int| 0 <= j < lb0.len() && lb0[j] == x && keeps_vote(#[trigger] ps0[j]);
                assert(lb[j] == x && keeps_vote(ps[j]));
            }
        }
        assert forall|id: u64| #[trigger] dropped_votes(lb, ps).contains(id) implies exists|j: int|
            0 <= j < lb.len() && (#[trigger] lb[j]).poll_id == id && !keeps_vote(ps[j]) by {
            if !keeps_vote(ps.last()) {
                let d = dropped_votes(lb0, ps0);
                let idx = choose|idx: int| 0 <= idx < d.push(lb.last().poll_id).len() && d.push(
                    lb.last().poll_id,
                )[idx] == id;
                if idx == d.len() {
                    assert(lb[n].poll_id == id && !keeps_vote(ps[n]));
                } else {
                    assert(d.contains(id));
                    let j = choose|j: int| 0 <= j < lb0.len() && (#[trigger] lb0[j]).poll_id == id && !keeps_vote(ps0[j]);
                    assert(lb[j].poll_id == id && !keeps_vote(ps[j]));
                }
            } else {
                assert(dropped_votes(lb0, ps0).contains(id));
                let j = choose|j: int| 0 <= j < lb0.len() && (#[trigger] lb0[j]).poll_id == id && !keeps_vote(ps0[j]);
                assert(lb[j].poll_id == id && !keeps_vote(ps[j]));
            }
        }
    }
}

/// Withdrawing staked tokens keeps the vote record of every poll still in
/// progress or still carrying a voting reward (so that reward can still be
/// withdrawn), and drops exactly the others: each entry of the locked
/// balance is either kept, or has its poll id among the dropped ones, never
/// both (where every poll appears once in the locked balance).
pub proof fn lemma_withdraw_keeps_live_votes(lb: Seq<LockedBalance>, ps: Seq<Poll>, i: int)
    requires
        lb.len() == ps.len(),
        0 <= i < lb.len(),
        forall|a: int, b: int| 0 <= a < b < lb.len() ==> lb[a].poll_id != lb[b].poll_id,
    ensures
        ps[i].status == PollStatus::InProgress || ps[i].voters_reward != 0 ==> kept_votes(lb, ps).contains(lb[i])
            && !dropped_votes(lb, ps).contains(lb[i].poll_id),
        ps[i].status != PollStatus::InProgress && ps[i].voters_reward == 0 ==> !kept_votes(lb, ps).contains(lb[i])
            && dropped_votes(lb, ps).contains(lb[i].poll_id),
        kept_votes(lb, ps).len() + dropped_votes(lb, ps).len() == lb.len(),
    decreases lb.len(),
{
    let lb0 = lb.drop_last();
    let ps0 = ps.drop_last();
    let n = lb.len() - 1;
    lemma_split_votes_origin(lb0, ps0);
    if i < n {
        lemma_withdraw_keeps_live_votes(lb0, ps0, i);
        assert(lb0[i] == lb[i] && ps0[i] == ps[i]);
        // the last entry differs from entry i in its poll id
        assert(lb[n].poll_id != lb[i].poll_id);
        assert(lb[n] != lb[i]);
        if keeps_vote(ps.last()) {
            assert(kept_votes(lb, ps) == kept_votes(lb0, ps0).push(lb.last()));
            assert(dropped_votes(lb, ps) == dropped_votes(lb0, ps0));
            if kept_votes(lb0, ps0).contains(lb[i]) {
                let idx = choose|idx: int| 0 <= idx < kept_votes(lb0, ps0).len() && kept_votes(lb0, ps0)[idx] == lb[i];
                assert(kept_votes(lb, ps)[idx] == lb[i]);
            }
            if kept_votes(lb, ps).contains(lb[i]) {
                let idx = choose|idx: int| 0 <= idx < kept_votes(lb, ps).len() && kept_votes(lb, ps)[idx] == lb[i];
                assert(idx < kept_votes(lb0, ps0).len());
                assert(kept_votes(lb0, ps0)[idx] == lb[i]);
            }
        } else {
            assert(kept_votes(lb, ps) == kept_votes(lb0, ps0));
            assert(dropped_votes(lb, ps) == dropped_votes(lb0, ps0).push(lb.last().poll_id));
            if dropped_votes(lb0, ps0).contains(lb[i].poll_id) {
                let idx = choose|idx: int| 0 <= idx < dropped_votes(lb0, ps0).len() && dropped_votes(lb0, ps0)[idx]
                    == lb[i].poll_id;
                assert(dropped_votes(lb, ps)[idx] == lb[i].poll_id);
            }
            if dropped_votes(lb, ps).contains(lb[i].poll_id) {
                let idx = choose|idx: int| 0 <= idx < dropped_votes(lb, ps).len() && dropped_votes(lb, ps)[idx]
                    == lb[i].poll_id;
                assert(idx < dropped_votes(lb0, ps0).len());
                assert(dropped_votes(lb0, ps0)[idx] == lb[i].poll_id);
            }
        }
    } else {
        if n > 0 {
            lemma_withdraw_keeps_live_votes(lb0, ps0, 0);
        }
        // entry n is not among the earlier entries
        assert(!kept_votes(lb0, ps0).contains(lb[n])) by {
            if kept_votes(lb0, ps0).contains(lb[n]) {
                let j = choose|j: int| 0 <= j < lb0.len() && lb0[j] == lb[n] && keeps_vote(#[trigger] ps0[j]);
                assert(lb[j].poll_id == lb[n].poll_id);
            }
        }
        assert(!dropped_votes(lb0, ps0).contains(lb[n].poll_id)) by {
            if dropped_votes(lb0, ps0).contains(lb[n].poll_id) {
                let j = choose|j: int| 0 <= j < lb0.len() && (#[trigger] lb0[j]).poll_id == lb[n].poll_id && !keeps_vote(
                    ps0[j],
                );
                assert(lb[j].poll_id == lb[n].poll_id);
            }
        }
        if keeps_vote(ps.last()) {
            assert(kept_votes(lb, ps) == kept_votes(lb0, ps0).push(lb.last()));
            assert(kept_votes(lb, ps)[kept_votes(lb0, ps0).len() as int] == lb[n]);
            assert(dropped_votes(lb, ps) == dropped_votes(lb0, ps0));
        } else {
            assert(dropped_votes(lb, ps) == dropped_votes(lb0, ps0).push(lb.last().poll_id));
            assert(dropped_votes(lb, ps)[dropped_votes(lb0, ps0).len() as int] == lb[n].poll_id);
            assert(kept_votes(lb, ps) == kept_votes(lb0, ps0));
        }
    }
    if n == 0 {
        assert(kept_votes(lb0, ps0).len() == 0 && dropped_votes(lb0, ps0).len() == 0);
    }
}

/// Splits a locked balance into the entries kept and the ids of the polls
/// whose vote records are dropped, given the poll of each entry.
fn split_votes(lb: &Vec<LockedBalance>, ps: &Vec<Poll>) -> (r: (Vec<LockedBalance>, Vec<u64>))
    requires
        lb@.len() == ps@.len(),
    ensures
        r.0@ == kept_votes(lb@, ps@),
        r.1@ == dropped_votes(lb@, ps@),
{
    let mut kept: Vec<LockedBalance> = Vec::new();
    let mut dropped: Vec<u64> = Vec::new();
    let mut i: usize = 0;
    while i < lb.len()
        invariant
            lb@.len() == ps@.len(),
            i <= lb@.len(),
            kept@ == kept_votes(lb@.take(i as int), ps@.take(i as int)),
            dropped@ == dropped_votes(lb@.take(i as int), ps@.take(i as int)),
        decreases lb@.len() - i,
    {
        proof {
            assert(lb@.take(i + 1).drop_last() =~= lb@.take(i as int));
            assert(ps@.take(i + 1).drop_last() =~= ps@.take(i as int));
        }
        let p = ps[i];
        let in_progress = match p.status {
            PollStatus::InProgress => true,
            _ => false,
        };
        if in_progress || p.voters_reward != 0 {
            kept.push(lb[i]);
        } else {
            dropped.push(lb[i].poll_id);
        }
        i = i + 1;
    }
    proof {
        assert(lb@.take(lb@.len() as int) =~= lb@);
        assert(ps@.take(ps@.len() as int) =~= ps@);
    }
    (kept, dropped)
}

/// The shares a withdrawal of `amount` ANC takes (what it is worth at the
/// pool's price, rounded up, and at least one), or all the staker's shares
/// where no amount is given.
pub open spec fn withdraw_share_spec(amount: Option<u128>, user_share: u128, total_share: u128, total_balance: int) -> int {
    match amount {
        Some(v) => {
            let s = mul_div_ceil(v as int, total_share as int, total_balance);
            if s >= 1 { s } else { 1 }
        },
        None => user_share as int,
    }
}

/// The ANC a withdrawal sends: the amount asked for, or the value of all the
/// staker's shares.
pub open spec fn withdraw_amount_spec(amount: Option<u128>, user_share: u128, total_share: u128, total_balance: int) -> int {
    match amount {
        Some(v) => v as int,
        None => (user_share * total_balance) / (total_share as int),
    }
}

/// Withdrawing voting tokens does not panic.
pub open spec fn withdraw_voting_tokens_defined(tm: TokenManager, state: State, balance: u128, amount: Option<u128>) -> bool {
    let total_balance = staked_balance(balance, state);
    &&& state.total_deposit + state.pending_voting_rewards <= u128::MAX
    &&& tm.share <= state.total_share
    &&& total_balance >= 0 ==> match amount {
        Some(v) => total_balance > 0 && mul_div_ceil(v as int, state.total_share as int, total_balance) <= u128::MAX,
        None => state.total_share > 0 && tm.share * total_balance <= u128::MAX,
    }
}

/// Whether withdrawing voting tokens can be done:
/// `withdraw_voting_tokens_defined`, tested.
pub fn withdraw_voting_tokens_is_defined(tm: &TokenManager, state: State, balance: u128, amount: Option<u128>) -> (b: bool)
    ensures
        b == withdraw_voting_tokens_defined(*tm, state, balance, amount),
{
    if state.total_deposit > u128::MAX - state.pending_voting_rewards || tm.share > state.total_share {
        return false;
    }
    let locked = state.total_deposit + state.pending_voting_rewards;
    if balance < locked {
        return true;
    }
    let total_balance = balance - locked;
    match amount {
        Some(v) => total_balance > 0 && checked_mul_div_ceil(v, state.total_share, total_balance).is_some(),
        None => state.total_share > 0 && checked_mul_div(tm.share, total_balance, 1).is_some(),
    }
}

/// A withdrawal of staked tokens: the staker after it, the pool after it, the
/// amount sent, the shares withdrawn from the voting escrow (where the
/// staker is in step with it), and the polls whose vote records are dropped.
#[derive(Clone, Debug, PartialEq, Eq)]
pub struct TokenWithdrawal {
    pub token_manager: TokenManager,
    pub state: State,
    pub amount: u128,
    pub escrow_withdraw: Option<u128>,
    pub dropped_votes: Vec<u64>,
}

/// Withdraws staked ANC: `amount` of it where given (for the shares it is
/// worth at the pool's price, rounded up, at least one), all of the
/// staker's shares otherwise. The staker may
/// not withdraw more shares than it holds. Finished polls without a reward
/// leave its locked balance. The voting escrow lock shrinks by the shares
/// withdrawn where the staker is in step with it.
pub fn withdraw_voting_tokens(
    token_manager: Option<TokenManager>,
    state: State,
    balance: u128,
    amount: Option<u128>,
    polls: &Vec<Poll>,
    is_synced: Option<bool>,
) -> (r: Result<TokenWithdrawal, ContractError>)
    requires
        token_manager matches Some(tm) ==> {
            &&& tm.locked_balance@.len() == polls@.len()
            &&& withdraw_voting_tokens_defined(tm, state, balance, amount)
        },
    ensures
        token_manager is None ==> r == Err::<TokenWithdrawal, ContractError>(ContractError::NothingStaked),
        token_manager is Some && staked_balance(balance, state) < 0 ==> r == Err::<TokenWithdrawal, ContractError>(
            ContractError::Overflow,
        ),
        token_manager matches Some(tm) ==> (staked_balance(balance, state) >= 0 ==> ({
            let tb = staked_balance(balance, state);
            let ws = withdraw_share_spec(amount, tm.share, state.total_share, tb);
            if ws > tm.share {
                r == Err::<TokenWithdrawal, ContractError>(ContractError::InvalidWithdrawAmount)
            } else {
                r matches Ok(w) && w.token_manager.share == tm.share - ws && w.token_manager.locked_balance@
                    == kept_votes(tm.locked_balance@, polls@) && w.state == (State {
                    total_share: (state.total_share - ws) as u128,
                    ..state
                }) && w.amount == withdraw_amount_spec(amount, tm.share, state.total_share, tb)
                    && w.escrow_withdraw == (if is_synced == Some(true) { Some(ws as u128) } else { None })
                    && w.dropped_votes@ == dropped_votes(tm.locked_balance@, polls@)
            }
        })),
{
    let tm = match token_manager {
        Some(tm) => tm,
        None => {
            return Err(ContractError::NothingStaked);
        },
    };
    let total_locked_balance = state.total_deposit + state.pending_voting_rewards;
    let total_share = state.total_share;
    if balance < total_locked_balance {
        return Err(ContractError::Overflow);
    }
    let total_balance = balance - total_locked_balance;
    let (kept, dropped) = split_votes(&tm.locked_balance, polls);
    let user_share = tm.share;
    let withdraw_share = match amount {
        Some(v) => {
            let s = multiply_ratio_ceil(v, total_share, total_balance);
            if s >= 1 { s } else { 1 }
        },
        None => user_share,
    };
    let withdraw_amount = match amount {
        Some(v) => v,
        None => withdraw_share * total_balance / total_share,
    };
    if withdraw_share > user_share {
        return Err(ContractError::InvalidWithdrawAmount);
    }
    let mut state = state;
    state.total_share = total_share - withdraw_share;
    let synced = match is_synced {
        Some(b) => b,
        None => false,
    };
    Ok(TokenWithdrawal {
        token_manager: TokenManager { share: user_share - withdraw_share, locked_balance: kept },
        state,
        amount: withdraw_amount,
        escrow_withdraw: if synced { Some(withdraw_share) } else { None },
        dropped_votes: dropped,
    })
}

/// A staker as a query shows it.
#[derive(Clone, Debug, PartialEq, Eq)]
pub struct StakerResponse {
    pub balance: u128,
    pub share: u128,
    pub locked_balance: Vec<LockedBalance>,
    pub pending_voting_rewards: u128,
    pub withdrawable_polls: Vec<(u64, u128)>,
}

/// The entries of the locked balance `lb` whose polls are in progress.
pub open spec fn in_progress_votes(lb: Seq<LockedBalance>, ps: Seq<Poll>) -> Seq<LockedBalance>
    decreases lb.len(),
{
    if lb.len() == 0 || ps.len() != lb.len() {
        Seq::empty()
    } else if ps.last().status == PollStatus::InProgress {
        in_progress_votes(lb.drop_last(), ps.drop_last()).push(lb.last())
    } else {
        in_progress_votes(lb.drop_last(), ps.drop_last())
    }
}

fn filter_in_progress(lb: &Vec<LockedBalance>, ps: &Vec<Poll>) -> (r: Vec<LockedBalance>)
    requires
        lb@.len() == ps@.len(),
    ensures
        r@ == in_progress_votes(lb@, ps@),
{
    let mut kept: Vec<LockedBalance> = Vec::new();
    let mut i: usize = 0;
    while i < lb.len()
        invariant
            lb@.len() == ps@.len(),
            i <= lb@.len(),
            kept@ == in_progress_votes(lb@.take(i as int), ps@.take(i as int)),
        decreases lb@.len() - i,
    {
        proof {
            assert(lb@.take(i + 1).drop_last() =~= lb@.take(i as int));
            assert(ps@.take(i + 1).drop_last() =~= ps@.take(i as int));
        }
        match ps[i].status {
            PollStatus::InProgress => {
                kept.push(lb[i]);
            },
            _ => {},
        }
        i = i + 1;
    }
    proof {
        assert(lb@.take(lb@.len() as int) =~= lb@);
        assert(ps@.take(ps@.len() as int) =~= ps@);
    }
    kept
}

/// A staker's view: the value of its shares in the pool's staked balance,
/// its shares, its votes in polls still in progress, its pending voting
/// rewards and the reward of each poll it may withdraw from.
pub fn query_staker(
    token_manager: Option<TokenManager>,
    state: State,
    balance: u128,
    ws: &Vec<WithdrawablePoll>,
    polls: &Vec<Poll>,
) -> (r: Result<StakerResponse, ContractError>)
    requires
        rewards_sum_defined(ws@),
        state.total_deposit + state.pending_voting_rewards <= u128::MAX,
        token_manager matches Some(tm) ==> {
            &&& tm.locked_balance@.len() == polls@.len()
            &&& staked_balance(balance, state) >= 0 && state.total_share != 0 ==> mul_div_floor(
                tm.share as int,
                staked_balance(balance, state),
                state.total_share as int,
            ) <= u128::MAX
        },
        token_manager is None ==> polls@.len() == 0,
    ensures
        staked_balance(balance, state) < 0 ==> r == Err::<StakerResponse, ContractError>(ContractError::Overflow),
        staked_balance(balance, state) >= 0 ==> (r matches Ok(resp) && {
            let share = match token_manager {
                Some(tm) => tm.share,
                None => 0,
            };
            &&& resp.share == share
            &&& resp.balance == (if state.total_share != 0 {
                mul_div_floor(share as int, staked_balance(balance, state), state.total_share as int)
            } else {
                0
            })
            &&& resp.pending_voting_rewards == total_poll_reward(ws@)
            &&& resp.locked_balance@ == match token_manager {
                Some(tm) => in_progress_votes(tm.locked_balance@, polls@),
                None => Seq::empty(),
            }
            &&& resp.withdrawable_polls@.len() == ws@.len()
            &&& forall|i: int|
                0 <= i < ws@.len() ==> #[trigger] resp.withdrawable_polls@[i] == (
                    ws@[i].poll.id,
                    poll_reward(ws@[i]) as u128,
                )
        }),
{
    let (share, locked) = match token_manager {
        Some(tm) => (tm.share, tm.locked_balance),
        None => (0u128, Vec::new()),
    };
    let mut rewards: u128 = 0;
    let mut withdrawable_polls: Vec<(u64, u128)> = Vec::new();
    let mut i: usize = 0;
    while i < ws.len()
        invariant
            i <= ws@.len(),
            rewards_sum_defined(ws@),
            rewards == total_poll_reward(ws@.take(i as int)),
            withdrawable_polls@.len() == i,
            forall|j: int|
                0 <= j < i ==> #[trigger] withdrawable_polls@[j] == (ws@[j].poll.id, poll_reward(ws@[j]) as u128),
        decreases ws@.len() - i,
    {
        let w = ws[i];
        proof {
            assert(ws@.take(i + 1).drop_last() =~= ws@.take(i as int));
            assert(poll_reward_defined(ws@[i as int]));
            assert(total_poll_reward(ws@.take(i + 1)) <= u128::MAX);
        }
        let reward = multiply_ratio(w.poll.voters_reward, w.voter_info.balance, w.poll.no_votes + w.poll.yes_votes);
        rewards = rewards + reward;
        withdrawable_polls.push((w.poll.id, reward));
        i = i + 1;
    }
    proof {
        assert(ws@.take(ws@.len() as int) =~= ws@);
    }
    let locked_balance = filter_in_progress(&locked, polls);
    let total_locked_balance = state.total_deposit + state.pending_voting_rewards;
    if balance < total_locked_balance {
        return Err(ContractError::Overflow);
    }
    let total_balance = balance - total_locked_balance;
    let value = if state.total_share != 0 {
        multiply_ratio(share, total_balance, state.total_share)
    } else {
        0
    };
    Ok(StakerResponse {
        balance: value,
        share,
        locked_balance,
        pending_voting_rewards: rewards,
        withdrawable_polls,
    })
}


/// Withdrawing an amount takes at least the shares it is worth at the
/// pool's price: rounding never favours the staker, and the shares left
/// keep their value.
pub proof fn lemma_withdraw_share_covers_amount(amount: u128, user_share: u128, total_share: u128, total_balance: int)
    requires
        total_balance > 0,
    ensures
        withdraw_share_spec(Some(amount), user_share, total_share, total_balance) * total_balance >= amount
            * total_share,
{
    let n = amount * total_share;
    let q = n / total_balance;
    let s = withdraw_share_spec(Some(amount), user_share, total_share, total_balance);
    vstd::arithmetic::div_mod::lemma_fundamental_div_mod(n, total_balance);
    assert(n >= 0) by (nonlinear_arith)
        requires n == amount * total_share;
    vstd::arithmetic::div_mod::lemma_mod_pos_bound(n, total_balance);
    vstd::arithmetic::div_mod::lemma_div_pos_is_pos(n, total_balance);
    let c = mul_div_ceil(amount as int, total_share as int, total_balance);
    assert(c * total_balance >= n) by (nonlinear_arith)
        requires
            n == total_balance * q + n % total_balance,
            0 <= n % total_balance < total_balance,
            c == (if n % total_balance == 0 { q } else { q + 1 }),
    ;
    assert(s >= c);
    assert(s * total_balance >= c * total_balance) by (nonlinear_arith)
        requires s >= c, total_balance > 0;
}

/// A withdrawal that goes through never sends more than the staker's staked
/// balance, `user_share * total_balance / total_share`: asked for an amount,
/// the shares it takes (which may not exceed the staker's) are worth at
/// least that amount; asked for everything, it sends that balance truncated.
pub proof fn lemma_withdrawal_within_staked_balance(
    amount: Option<u128>,
    user_share: u128,
    total_share: u128,
    total_balance: int,
)
    requires
        total_share > 0,
        total_balance >= 0,
        amount is Some ==> total_balance > 0,
        withdraw_share_spec(amount, user_share, total_share, total_balance) <= user_share,
    ensures
        withdraw_amount_spec(amount, user_share, total_share, total_balance) * total_share <= user_share
            * total_balance,
{
    match amount {
        Some(v) => {
            lemma_withdraw_share_covers_amount(v, user_share, total_share, total_balance);
            let ws = withdraw_share_spec(amount, user_share, total_share, total_balance);
            assert(ws * total_balance <= user_share * total_balance) by (nonlinear_arith)
                requires ws <= user_share, total_balance > 0;
            assert(v * total_share == withdraw_amount_spec(amount, user_share, total_share, total_balance)
                * total_share);
        },
        None => {
            let n = user_share * total_balance;
            assert(n >= 0) by (nonlinear_arith)
                requires n == user_share * total_balance, total_balance >= 0;
            vstd::arithmetic::div_mod::lemma_fundamental_div_mod(n, total_share as int);
            vstd::arithmetic::div_mod::lemma_mod_pos_bound(n, total_share as int);
            let q = n / (total_share as int);
            assert(q * total_share <= n) by (nonlinear_arith)
                requires n == total_share * q + n % (total_share as int), n % (total_share as int) >= 0;
        },
    }
}

/// Staking into a pool and withdrawing all the shares it bought right away
/// returns no more than was staked: rounding never favours the staker.
pub proof fn lemma_stake_then_withdraw_no_gain(amount: u128, total_share: u128, total_balance: int)
    requires
        total_share > 0,
        total_balance > 0,
    ensures
        ({
            let s = shares_for(amount, total_share, total_balance);
            (s * (total_balance + amount)) / (total_share + s) <= amount
        }),
{
    let s = shares_for(amount, total_share, total_balance);
    let ts = total_share as int;
    let a = amount as int;
    vstd::arithmetic::div_mod::lemma_fundamental_div_mod(a * ts, total_balance);
    assert(a * ts >= 0) by (nonlinear_arith)
        requires a >= 0, ts >= 0;
    vstd::arithmetic::div_mod::lemma_div_pos_is_pos(a * ts, total_balance);
    assert(s * total_balance <= a * ts) by (nonlinear_arith)
        requires
            s == (a * ts) / total_balance,
            a * ts == total_balance * ((a * ts) / total_balance) + (a * ts) % total_balance,
            (a * ts) % total_balance >= 0;
    assert(s * (total_balance + a) <= a * (ts + s)) by (nonlinear_arith)
        requires s * total_balance <= a * ts, s >= 0, a >= 0;
    vstd::arithmetic::div_mod::lemma_div_is_ordered(s * (total_balance + a), a * (ts + s), ts + s);
    vstd::arithmetic::div_mod::lemma_div_multiples_vanish(a, ts + s);
    assert(a * (ts + s) == (ts + s) * a) by (nonlinear_arith);
}

} // verus!
