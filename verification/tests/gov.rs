use anchor_token::gov::{ deposit_reward_is_defined, extend_lock_amount_is_defined, rewards_sum_is_defined, withdraw_voting_tokens_is_defined, };
use anchor_token::gov::{
    deposit_reward, extend_lock_amount, extend_lock_time, get_withdrawable_polls, query_staker,
    retain_unwithdrawn, select_poll, withdraw_user_voting_rewards, withdraw_voting_rewards,
    withdraw_voting_tokens, ContractError, LockTimeExtension, LockedBalance, Poll, PollStatus,
    PollVote, State, TokenManager, VoteOption, VoterInfo, WithdrawablePoll,
};
use anchor_token::math::Decimal;

fn state(total_share: u128, total_deposit: u128, pending: u128) -> State {
    State { poll_count: 0, total_share, total_deposit, pending_voting_rewards: pending }
}

fn poll(id: u64, status: PollStatus, yes: u128, no: u128, reward: u128) -> Poll {
    Poll { id, status, yes_votes: yes, no_votes: no, voters_reward: reward }
}

#[test]
fn share_calculation() {
    // create 100 shares
    let s = extend_lock_amount(0, state(0, 0, 0), 100, 100).unwrap();
    assert_eq!(s.share, 100);
    assert_eq!(s.issued, 100);
    assert_eq!(s.state.total_share, 100);
    // 100 more tokens arrive, making share:balance 1:2; 100 more staked buy 50 shares
    let s2 = extend_lock_amount(s.share, s.state, 200 + 100, 100).unwrap();
    assert_eq!(s2.issued, 50);
    assert_eq!(s2.share, 150);
    // withdrawing 100 tokens takes 50 shares
    let tm = TokenManager { share: s2.share, locked_balance: Vec::new() };
    let w = withdraw_voting_tokens(Some(tm), s2.state, 300, Some(100), &Vec::new(), None).unwrap();
    assert_eq!(w.amount, 100);
    // 100 tokens withdrawn: the staker holds 100 shares worth 200
    let r = query_staker(Some(w.token_manager), w.state, 200, &Vec::new(), &Vec::new()).unwrap();
    assert_eq!(r.share, 100);
    assert_eq!(r.balance, 200);
    assert_eq!(r.locked_balance, Vec::new());

    assert_eq!(extend_lock_amount(0, s.state, 300, 0), Err(ContractError::InsufficientFunds));
    assert_eq!(extend_lock_amount(0, state(1, 500, 0), 300, 1), Err(ContractError::Overflow));
}

#[test]
fn tests_test_extend_lock_time() {
    // a staker of 5 shares not yet in step: the lock time and the amount are sent
    assert_eq!(extend_lock_time(None, 5), LockTimeExtension { extend_amount: Some(5), mark_synced: true });
    // once in step, only the lock time
    assert_eq!(extend_lock_time(Some(true), 5), LockTimeExtension { extend_amount: None, mark_synced: false });
    assert_eq!(extend_lock_time(Some(false), 0), LockTimeExtension { extend_amount: None, mark_synced: true });
}

#[test]
fn test_deposit_reward_splits_among_polls() {
    let polls = vec![poll(1, PollStatus::InProgress, 0, 0, 0), poll(2, PollStatus::InProgress, 0, 0, 5)];
    let (ps, st) = deposit_reward(Decimal::from_ratio(1, 2), polls.clone(), state(0, 0, 0), 101).unwrap();
    // voters' part 50, 25 per poll
    assert_eq!(ps[0].voters_reward, 25);
    assert_eq!(ps[1].voters_reward, 30);
    assert_eq!(st.pending_voting_rewards, 50);
    let (ps, st) = deposit_reward(Decimal::zero(), polls.clone(), state(0, 0, 0), 101).unwrap();
    assert_eq!(ps, polls);
    assert_eq!(st.pending_voting_rewards, 0);
    assert_eq!(
        deposit_reward(Decimal::from_ratio(1, 100), polls, state(0, 0, 0), 100),
        Err(ContractError::RewardDepositedTooSmall)
    );
}

#[test]
fn voting_rewards_withdrawal_rules() {
    let vi = VoterInfo { vote: VoteOption::Yes, balance: 10 };
    let pvs = vec![
        PollVote { poll: poll(1, PollStatus::Passed, 10, 10, 100), voter_info: Some(vi) },
        PollVote { poll: poll(2, PollStatus::InProgress, 10, 0, 100), voter_info: Some(vi) },
        PollVote { poll: poll(3, PollStatus::Rejected, 10, 0, 0), voter_info: Some(vi) },
        PollVote { poll: poll(4, PollStatus::Rejected, 5, 15, 40), voter_info: None },
    ];
    let ws = get_withdrawable_polls(&pvs);
    assert_eq!(ws.len(), 1);
    assert_eq!(ws[0].poll.id, 1);
    let (amount, ids) = withdraw_user_voting_rewards(&ws);
    assert_eq!(amount, 50);
    assert_eq!(ids, vec![1]);

    let lb: Vec<LockedBalance> =
        (1..=4).map(|id| LockedBalance { poll_id: id, voter_info: vi }).collect();
    let tm = TokenManager { share: 10, locked_balance: lb.clone() };
    let w = withdraw_voting_rewards(Some(tm.clone()), state(10, 0, 60), &ws).unwrap();
    assert_eq!(w.amount, 50);
    assert_eq!(w.state.pending_voting_rewards, 10);
    assert_eq!(w.locked_balance, retain_unwithdrawn(&lb, &vec![1]));
    assert_eq!(w.locked_balance.len(), 3);
    assert_eq!(withdraw_voting_rewards(None, state(10, 0, 60), &ws), Err(ContractError::NothingStaked));
    assert_eq!(
        withdraw_voting_rewards(Some(tm.clone()), state(10, 0, 60), &Vec::new()),
        Err(ContractError::NothingToWithdraw)
    );
    assert_eq!(withdraw_voting_rewards(Some(tm), state(10, 0, 40), &ws), Err(ContractError::Overflow));

    assert_eq!(select_poll(poll(2, PollStatus::InProgress, 1, 0, 9), vi), Err(ContractError::PollInProgress));
    assert_eq!(select_poll(poll(3, PollStatus::Passed, 1, 0, 0), vi), Err(ContractError::InsufficientReward));
    assert_eq!(
        select_poll(poll(3, PollStatus::Passed, 1, 0, 9), vi),
        Ok(WithdrawablePoll { poll: poll(3, PollStatus::Passed, 1, 0, 9), voter_info: vi })
    );
}

#[test]
fn withdraw_voting_tokens_rules() {
    let vi = VoterInfo { vote: VoteOption::No, balance: 11 };
    let lb = vec![
        LockedBalance { poll_id: 1, voter_info: vi },
        LockedBalance { poll_id: 2, voter_info: vi },
    ];
    let polls = vec![poll(1, PollStatus::Passed, 11, 0, 0), poll(2, PollStatus::InProgress, 11, 0, 0)];
    let tm = TokenManager { share: 11, locked_balance: lb };
    // balance 22 backs 11 shares: withdrawing 11 tokens takes 6 shares (rounded up, at least 1)
    let w = withdraw_voting_tokens(Some(tm.clone()), state(11, 0, 0), 22, Some(11), &polls, Some(true)).unwrap();
    assert_eq!(w.token_manager.share, 5);
    assert_eq!(w.state.total_share, 5);
    assert_eq!(w.amount, 11);
    assert_eq!(w.escrow_withdraw, Some(6));
    assert_eq!(w.dropped_votes, vec![1]);
    assert_eq!(w.token_manager.locked_balance.len(), 1);
    // everything
    let all = withdraw_voting_tokens(Some(tm.clone()), state(11, 0, 0), 22, None, &polls, None).unwrap();
    assert_eq!(all.amount, 22);
    assert_eq!(all.token_manager.share, 0);
    assert_eq!(all.escrow_withdraw, None);
    assert_eq!(
        withdraw_voting_tokens(Some(tm.clone()), state(11, 0, 0), 22, Some(30), &polls, None),
        Err(ContractError::InvalidWithdrawAmount)
    );
    assert_eq!(withdraw_voting_tokens(None, state(11, 0, 0), 22, None, &Vec::new(), None), Err(ContractError::NothingStaked));
    assert_eq!(
        withdraw_voting_tokens(Some(tm), state(11, 30, 0), 22, None, &polls, None),
        Err(ContractError::Overflow)
    );
}

#[test]
fn staker_view() {
    let vi = VoterInfo { vote: VoteOption::Yes, balance: 10 };
    let lb = vec![LockedBalance { poll_id: 1, voter_info: vi }, LockedBalance { poll_id: 2, voter_info: vi }];
    let polls = vec![poll(1, PollStatus::Passed, 10, 10, 100), poll(2, PollStatus::InProgress, 10, 0, 0)];
    let ws = vec![WithdrawablePoll { poll: polls[0], voter_info: vi }];
    let tm = TokenManager { share: 10, locked_balance: lb.clone() };
    let r = query_staker(Some(tm), state(20, 5, 50), 95, &ws, &polls).unwrap();
    assert_eq!(r.balance, 20);
    assert_eq!(r.share, 10);
    assert_eq!(r.pending_voting_rewards, 50);
    assert_eq!(r.locked_balance, vec![lb[1]]);
    assert_eq!(r.withdrawable_polls, vec![(1, 50)]);
    assert_eq!(query_staker(None, state(20, 5, 50), 10, &Vec::new(), &Vec::new()), Err(ContractError::Overflow));
}

#[test]
fn staking_definedness() {
    assert!(extend_lock_amount_is_defined(0, state(0, 0, 0), 100, 100));
    assert!(extend_lock_amount_is_defined(0, state(1, 500, 0), 300, 1));
    // the tokens held must fit 128 bits
    assert!(!extend_lock_amount_is_defined(0, state(0, u128::MAX, 1), 100, 100));
    // the staker's shares cannot overflow
    assert!(!extend_lock_amount_is_defined(u128::MAX, state(0, 0, 0), 100, 100));

    let polls = vec![poll(1, PollStatus::InProgress, 0, 0, 0), poll(2, PollStatus::InProgress, 0, 0, 5)];
    let w = Decimal::from_ratio(1, 2);
    assert!(deposit_reward_is_defined(w, &polls, state(0, 0, 0), 1000));
    assert!(deposit_reward_is_defined(Decimal::zero(), &polls, state(0, 0, 0), u128::MAX));
    assert!(!deposit_reward_is_defined(w, &vec![poll(1, PollStatus::InProgress, 0, 0, u128::MAX)], state(0, 0, 0), 1000));
    assert!(!deposit_reward_is_defined(w, &polls, state(0, 0, u128::MAX), 1000));

    let vote = VoterInfo { vote: VoteOption::Yes, balance: 10 };
    let ws = vec![WithdrawablePoll { poll: poll(1, PollStatus::Passed, 10, 10, 100), voter_info: vote }];
    assert!(rewards_sum_is_defined(&ws));
    // a poll without votes cannot share its reward
    let no_votes = vec![WithdrawablePoll { poll: poll(1, PollStatus::Passed, 0, 0, 100), voter_info: vote }];
    assert!(!rewards_sum_is_defined(&no_votes));
    let huge = WithdrawablePoll { poll: poll(1, PollStatus::Passed, 1, 0, u128::MAX), voter_info: VoterInfo { vote: VoteOption::No, balance: 1 } };
    assert!(!rewards_sum_is_defined(&vec![huge, huge]));

    let tm = TokenManager { share: 50, locked_balance: Vec::new() };
    assert!(withdraw_voting_tokens_is_defined(&tm, state(100, 0, 0), 200, Some(10)));
    assert!(withdraw_voting_tokens_is_defined(&tm, state(100, 0, 0), 200, None));
    // nothing staked in the pool: the price is undefined
    assert!(!withdraw_voting_tokens_is_defined(&tm, state(100, 200, 0), 200, Some(10)));
    // more shares than the pool issued
    assert!(!withdraw_voting_tokens_is_defined(&tm, state(10, 0, 0), 200, None));
}

#[test]
fn voters_never_withdraw_more_than_the_poll_reward() {
    // 10 yes and 5 no share a reward of 100: 66 and 33, one token stays behind
    let p = poll(1, PollStatus::Passed, 10, 5, 100);
    let yes = WithdrawablePoll { poll: p, voter_info: VoterInfo { vote: VoteOption::Yes, balance: 10 } };
    let no = WithdrawablePoll { poll: p, voter_info: VoterInfo { vote: VoteOption::No, balance: 5 } };
    let (a, _) = withdraw_user_voting_rewards(&vec![yes]);
    let (b, _) = withdraw_user_voting_rewards(&vec![no]);
    assert_eq!((a, b), (66, 33));
    assert!(a + b <= 100);
}

const DEFAULT_PROPOSAL_DEPOSIT: u128 = 10000000000;

#[test]
fn test_voter_rewards_for_one_voter() {
    let weight = Decimal::from_ratio(50, 100);
    let mut st = State { poll_count: 1, total_share: 0, total_deposit: DEFAULT_PROPOSAL_DEPOSIT, pending_voting_rewards: 0 };
    // stake 11
    let stake = extend_lock_amount(0, st, 11 + DEFAULT_PROPOSAL_DEPOSIT, 11).unwrap();
    assert_eq!(stake.issued, 11);
    st = stake.state;
    assert_eq!(st.total_share, 11);
    // vote 10 yes on poll 1
    let p = poll(1, PollStatus::InProgress, 10, 0, 0);
    let vote = VoterInfo { vote: VoteOption::Yes, balance: 10 };
    // a deposit too small for the poll is refused
    assert_eq!(deposit_reward(weight, vec![p], st, 0), Err(ContractError::RewardDepositedTooSmall));
    // deposit 6: the voters' part is 3
    let (ps, st2) = deposit_reward(weight, vec![p], st, 6).unwrap();
    assert_eq!(ps[0].voters_reward, 3);
    assert_eq!(st2, State { poll_count: 1, total_share: 11, total_deposit: DEFAULT_PROPOSAL_DEPOSIT, pending_voting_rewards: 3 });
    // the creator has nothing staked
    assert_eq!(withdraw_voting_rewards(None, st2, &Vec::new()), Err(ContractError::NothingStaked));
    // the poll is still in progress
    assert_eq!(select_poll(ps[0], vote), Err(ContractError::PollInProgress));
    // the poll ends and its deposit is sent back
    let ended = Poll { status: PollStatus::Passed, ..ps[0] };
    let st3 = State { total_deposit: 0, ..st2 };
    assert_eq!(ended.voters_reward, 3);
    // the voter withdraws 3
    let ws = vec![select_poll(ended, vote).unwrap()];
    let tm = TokenManager { share: 11, locked_balance: vec![LockedBalance { poll_id: 1, voter_info: vote }] };
    let w = withdraw_voting_rewards(Some(tm), st3, &ws).unwrap();
    assert_eq!(w.amount, 3);
    assert_eq!(w.locked_balance, Vec::new());
    // the poll keeps its reward
    assert_eq!(ws[0].poll.voters_reward, 3);
    assert_eq!(w.state, State { poll_count: 1, total_share: 11, total_deposit: 0, pending_voting_rewards: 0 });
    // 14 tokens are left: 15 is more than the voter holds
    let tm = TokenManager { share: 11, locked_balance: w.locked_balance };
    assert_eq!(
        withdraw_voting_tokens(Some(tm.clone()), w.state, 14, Some(15), &Vec::new(), None),
        Err(ContractError::InvalidWithdrawAmount)
    );
    let all = withdraw_voting_tokens(Some(tm), w.state, 14, None, &Vec::new(), None).unwrap();
    assert_eq!(all.amount, 14);
}

#[test]
fn test_voter_rewards_for_two_voters() {
    let weight = Decimal::from_ratio(50, 100);
    let st = State { poll_count: 1, total_share: 0, total_deposit: DEFAULT_PROPOSAL_DEPOSIT, pending_voting_rewards: 0 };
    let balance = 11 + 999 + DEFAULT_PROPOSAL_DEPOSIT;
    let s1 = extend_lock_amount(0, st, balance, 11).unwrap();
    assert_eq!(s1.issued, 11);
    assert_eq!(s1.state, State { total_share: 11, ..st });
    let s2 = extend_lock_amount(0, s1.state, balance, 999).unwrap();
    assert_eq!(s2.issued, 999);
    assert_eq!(s2.state, State { total_share: 1010, ..st });
    // 10 yes and 998 no
    let vote1 = VoterInfo { vote: VoteOption::Yes, balance: 10 };
    let vote2 = VoterInfo { vote: VoteOption::No, balance: 998 };
    let p = poll(1, PollStatus::InProgress, 10, 998, 0);
    // deposit 234: 117 for the voters
    let (ps, st) = deposit_reward(weight, vec![p], s2.state, 234).unwrap();
    assert_eq!(st, State { poll_count: 1, total_share: 1010, total_deposit: DEFAULT_PROPOSAL_DEPOSIT, pending_voting_rewards: 117 });
    // the poll ends and its deposit is sent back
    let ended = Poll { status: PollStatus::Passed, ..ps[0] };
    assert_eq!(ended.voters_reward, 117);
    let st = State { total_deposit: 0, ..st };
    let tm1 = TokenManager { share: 11, locked_balance: vec![LockedBalance { poll_id: 1, voter_info: vote1 }] };
    let tm2 = TokenManager { share: 999, locked_balance: vec![LockedBalance { poll_id: 1, voter_info: vote2 }] };
    let w1 = withdraw_voting_rewards(Some(tm1), st, &vec![select_poll(ended, vote1).unwrap()]).unwrap();
    assert_eq!(w1.amount, 1);
    let w2 = withdraw_voting_rewards(Some(tm2), w1.state, &vec![select_poll(ended, vote2).unwrap()]).unwrap();
    assert_eq!(w2.amount, 115);
    assert_eq!(w2.state, State { poll_count: 1, total_share: 1010, total_deposit: 0, pending_voting_rewards: 1 });

    let balance = 11 + 999 + 234 - 1 - 115;
    let tm1 = TokenManager { share: 11, locked_balance: w1.locked_balance };
    let tm2 = TokenManager { share: 999, locked_balance: w2.locked_balance };
    assert_eq!(
        withdraw_voting_tokens(Some(tm1.clone()), w2.state, balance, Some(13), &Vec::new(), None),
        Err(ContractError::InvalidWithdrawAmount)
    );
    assert_eq!(
        withdraw_voting_tokens(Some(tm2.clone()), w2.state, balance, Some(1116), &Vec::new(), None),
        Err(ContractError::InvalidWithdrawAmount)
    );
    let a1 = withdraw_voting_tokens(Some(tm1), w2.state, balance, None, &Vec::new(), None).unwrap();
    assert_eq!(a1.amount, 12);
    let a2 = withdraw_voting_tokens(Some(tm2), a1.state, balance - 12, None, &Vec::new(), None).unwrap();
    assert_eq!(a2.amount, 1115);
}

#[test]
fn test_deposit_reward_without_in_progress_polls() {
    let s = extend_lock_amount(0, state(0, 0, 0), 11, 11).unwrap();
    assert_eq!(s.issued, 11);
    assert_eq!(s.state, state(11, 0, 0));
    // no poll in progress: the reward stays with the stakers
    let (ps, st) = deposit_reward(Decimal::from_ratio(50, 100), Vec::new(), s.state, 6).unwrap();
    assert_eq!(ps, Vec::new());
    assert_eq!(st, state(11, 0, 0));
    let tm = TokenManager { share: 11, locked_balance: Vec::new() };
    assert_eq!(
        withdraw_voting_tokens(Some(tm.clone()), st, 17, Some(18), &Vec::new(), None),
        Err(ContractError::InvalidWithdrawAmount)
    );
    let w = withdraw_voting_tokens(Some(tm), st, 17, Some(17), &Vec::new(), None).unwrap();
    assert_eq!(w.amount, 17);
}

#[test]
fn test_withdraw_voting_rewards_without_voters_reward() {
    let st = State { poll_count: 1, total_share: 0, total_deposit: DEFAULT_PROPOSAL_DEPOSIT, pending_voting_rewards: 0 };
    let s = extend_lock_amount(0, st, 11 + DEFAULT_PROPOSAL_DEPOSIT, 11).unwrap();
    assert_eq!(s.issued, 11);
    let vote = VoterInfo { vote: VoteOption::Yes, balance: 10 };
    // the poll ends without any reward deposited; its deposit is sent back
    let ended = poll(1, PollStatus::Passed, 10, 0, 0);
    let st = State { total_deposit: 0, ..s.state };
    assert_eq!(ended.voters_reward, 0);
    assert_eq!(select_poll(ended, vote), Err(ContractError::InsufficientReward));
    let lb = vec![LockedBalance { poll_id: 1, voter_info: vote }];
    let ws = get_withdrawable_polls(&vec![PollVote { poll: ended, voter_info: Some(vote) }]);
    let tm = TokenManager { share: 11, locked_balance: lb };
    assert_eq!(withdraw_voting_rewards(Some(tm.clone()), st, &ws), Err(ContractError::NothingToWithdraw));
    assert_eq!(st, State { poll_count: 1, total_share: 11, total_deposit: 0, pending_voting_rewards: 0 });
    let polls = vec![ended];
    assert_eq!(
        withdraw_voting_tokens(Some(tm.clone()), st, 11, Some(12), &polls, None),
        Err(ContractError::InvalidWithdrawAmount)
    );
    let w = withdraw_voting_tokens(Some(tm), st, 11, Some(11), &polls, None).unwrap();
    assert_eq!(w.amount, 11);
}

#[test]
fn test_stake_too_little() {
    let s = extend_lock_amount(0, state(0, 0, 0), 10, 9).unwrap();
    assert_eq!(s.issued, 9);
    assert_eq!(s.state, state(9, 0, 0));
    // one token buys no share
    assert_eq!(extend_lock_amount(s.share, s.state, 11, 1), Err(ContractError::InsufficientFunds));
    let s2 = extend_lock_amount(s.share, s.state, 12, 2).unwrap();
    assert_eq!(s2.issued, 1);
    assert_eq!(s2.state, state(10, 0, 0));
}

#[test]
fn happy_days_stake_voting_tokens() {
    let s = extend_lock_amount(0, state(0, 0, 0), 11, 11).unwrap();
    assert_eq!(s.issued, 11);
    assert_eq!(s.share, 11);
    assert_eq!(s.state, state(11, 0, 0));
}

#[test]
fn fails_insufficient_funds() {
    assert_eq!(extend_lock_amount(0, state(0, 0, 0), 0, 0), Err(ContractError::InsufficientFunds));
}

#[test]
fn happy_days_withdraw_voting_tokens_all() {
    let s = extend_lock_amount(0, state(0, 0, 0), 11, 11).unwrap();
    assert_eq!(s.state, state(11, 0, 0));
    // the balance doubles; everything is withdrawn
    let tm = TokenManager { share: s.share, locked_balance: Vec::new() };
    let w = withdraw_voting_tokens(Some(tm), s.state, 22, None, &Vec::new(), None).unwrap();
    assert_eq!(w.amount, 22);
    assert_eq!(w.state, state(0, 0, 0));
}

#[test]
fn fails_withdraw_voting_tokens_no_stake() {
    assert_eq!(
        withdraw_voting_tokens(None, state(0, 0, 0), 0, Some(11), &Vec::new(), None),
        Err(ContractError::NothingStaked)
    );
}

#[test]
fn fails_withdraw_too_many_tokens() {
    let s = extend_lock_amount(0, state(0, 0, 0), 10, 10).unwrap();
    assert_eq!(s.issued, 10);
    assert_eq!(s.state, state(10, 0, 0));
    let tm = TokenManager { share: s.share, locked_balance: Vec::new() };
    assert_eq!(
        withdraw_voting_tokens(Some(tm), s.state, 10, Some(11), &Vec::new(), None),
        Err(ContractError::InvalidWithdrawAmount)
    );
}

#[test]
fn withdraw_voting_tokens_remove_not_in_progress_poll_voter_info() {
    let s = extend_lock_amount(0, state(0, 0, 0), 11, 11).unwrap();
    assert_eq!(s.state, state(11, 0, 0));
    let vote = VoterInfo { vote: VoteOption::Yes, balance: 5 };
    // one poll in progress, one passed
    let polls = vec![poll(1, PollStatus::InProgress, 0, 0, 0), poll(1, PollStatus::Passed, 0, 0, 0)];
    let lb = vec![LockedBalance { poll_id: 1, voter_info: vote }, LockedBalance { poll_id: 2, voter_info: vote }];
    let tm = TokenManager { share: 11, locked_balance: lb };
    let w = withdraw_voting_tokens(Some(tm), s.state, 11, Some(5), &polls, None).unwrap();
    // the vote in the finished poll is removed
    assert_eq!(w.dropped_votes, vec![2]);
    assert_eq!(w.token_manager.locked_balance, vec![LockedBalance { poll_id: 1, voter_info: vote }]);
}

#[test]
fn happy_days_withdraw_voting_tokens() {
    // stake 11
    let s1 = extend_lock_amount(0, state(0, 0, 0), 11, 11).unwrap();
    assert_eq!(s1.share, 11);
    assert_eq!(s1.state.total_share, 11);
    // extending the lock time brings the voter in step: two messages
    let ext = extend_lock_time(None, s1.share);
    assert_eq!(ext, LockTimeExtension { extend_amount: Some(11), mark_synced: true });
    // the balance doubles; a second voter stakes 11
    let s2 = extend_lock_amount(0, s1.state, 22, 11).unwrap();
    assert_eq!(s2.issued, 11);
    assert_eq!(s2.state.total_share, 22);
    // the first voter withdraws 11: half its value, and the voting escrow lock shrinks by 11
    let tm = TokenManager { share: s1.share, locked_balance: Vec::new() };
    let w = withdraw_voting_tokens(Some(tm), s2.state, 22, Some(11), &Vec::new(), Some(true)).unwrap();
    assert_eq!(w.amount, 11);
    assert_eq!(w.escrow_withdraw, Some(11));
    assert_eq!(w.state, State { poll_count: 0, total_share: 11, total_deposit: 0, pending_voting_rewards: 0 });
}

#[test]
fn partial_withdrawal_takes_enough_shares() {
    // 1010 shares backed by 1127 tokens: 13 tokens are worth 11.65 shares, 12 are taken
    let tm = TokenManager { share: 20, locked_balance: Vec::new() };
    let w = withdraw_voting_tokens(Some(tm), state(1010, 0, 0), 1127, Some(13), &Vec::new(), None).unwrap();
    assert_eq!(w.token_manager.share, 8);
    assert_eq!(w.amount, 13);
    assert!((20 - w.token_manager.share) * 1127 >= 13 * 1010);
}
