//! Vesting: ANC released to registered accounts along their schedules and
//! claimed by them, under an owner who registers accounts.
use vstd::prelude::*;
use crate::schedule::{
    Schedule, lemma_no_release_over_empty_range, lemma_total_release_bounded, lemma_total_release_split,
    schedule_release_defined, total_amount, total_release, total_released, total_released_defined,
};

verus! {

/// Vesting queries return at most this many accounts.
pub const MAX_LIMIT: u32 = 30;

/// Vesting queries return this many accounts where no limit is asked.
pub const DEFAULT_LIMIT: u32 = 10;

/// The errors vesting answers with.
#[derive(Clone, Copy, Debug, PartialEq, Eq, Structural)]
pub enum ContractError {
    Unauthorized,
    /// A schedule that does not end after it starts.
    EndTimeMustBeBiggerThanStartTime,
}

/// The vesting settings.
#[derive(Clone, Debug, PartialEq, Eq)]
pub struct Config {
    pub owner: String,
    pub anchor_token: String,
    pub genesis_time: u64,
}

/// An account's schedules and the last time it claimed.
#[derive(Clone, Debug, PartialEq, Eq)]
pub struct VestingInfo {
    pub last_claim_time: u64,
    pub schedules: Vec<Schedule>,
}

/// An account to register and its schedules.
#[derive(Clone, Debug, PartialEq, Eq)]
pub struct VestingAccount {
    pub address: String,
    pub schedules: Vec<Schedule>,
}

/// Every schedule ends after it starts.
pub open spec fn schedules_valid(ss: Seq<Schedule>) -> bool {
    forall|i: int| 0 <= i < ss.len() ==> (#[trigger] ss[i]).start < ss[i].end
}

/// Checks that every schedule ends after it starts.
pub fn assert_vesting_schedules(vesting_schedules: &Vec<Schedule>) -> (r: Result<(), ContractError>)
    ensures
        r is Ok <==> schedules_valid(vesting_schedules@),
        r is Err ==> r == Err::<(), ContractError>(ContractError::EndTimeMustBeBiggerThanStartTime),
{
    let mut i: usize = 0;
    while i < vesting_schedules.len()
        invariant
            i <= vesting_schedules@.len(),
            forall|j: int| 0 <= j < i ==> (#[trigger] vesting_schedules@[j]).start < vesting_schedules@[j].end,
        decreases vesting_schedules@.len() - i,
    {
        if vesting_schedules[i].start >= vesting_schedules[i].end {
            return Err(ContractError::EndTimeMustBeBiggerThanStartTime);
        }
        i = i + 1;
    }
    Ok(())
}

/// Only the owner may act.
pub fn assert_owner_privilege(config: &Config, sender: &String) -> (r: Result<(), ContractError>)
    ensures
        r is Ok <==> config.owner@ == sender@,
        r is Err ==> r == Err::<(), ContractError>(ContractError::Unauthorized),
{
    if !config.owner.eq(sender) {
        return Err(ContractError::Unauthorized);
    }
    Ok(())
}

/// Replaces the settings that are given.
pub fn update_config(
    config: Config,
    owner: Option<String>,
    anchor_token: Option<String>,
    genesis_time: Option<u64>,
) -> (r: Config)
    ensures
        r.owner == match owner {
            Some(o) => o,
            None => config.owner,
        },
        r.anchor_token == match anchor_token {
            Some(a) => a,
            None => config.anchor_token,
        },
        r.genesis_time == match genesis_time {
            Some(g) => g,
            None => config.genesis_time,
        },
{
    let mut config = config;
    match owner {
        Some(o) => {
            config.owner = o;
        },
        None => {},
    }
    match anchor_token {
        Some(a) => {
            config.anchor_token = a;
        },
        None => {},
    }
    match genesis_time {
        Some(g) => {
            config.genesis_time = g;
        },
        None => {},
    }
    config
}

/// Registers vesting accounts: every account's schedules must be valid, and
/// each account starts claiming from the genesis time. Returns the vesting
/// information to store for each account, in order.
pub fn register_vesting_accounts(config: &Config, vesting_accounts: Vec<VestingAccount>) -> (r: Result<
    Vec<(String, VestingInfo)>,
    ContractError,
>)
    ensures
        (forall|i: int| 0 <= i < vesting_accounts@.len() ==> schedules_valid(#[trigger] vesting_accounts@[i].schedules@))
            <==> r is Ok,
        r is Err ==> r == Err::<Vec<(String, VestingInfo)>, ContractError>(
            ContractError::EndTimeMustBeBiggerThanStartTime,
        ),
        r matches Ok(infos) ==> {
            &&& infos@.len() == vesting_accounts@.len()
            &&& forall|i: int|
                0 <= i < infos@.len() ==> {
                    &&& (#[trigger] infos@[i]).0 == vesting_accounts@[i].address
                    &&& infos@[i].1.last_claim_time == config.genesis_time
                    &&& infos@[i].1.schedules@ == vesting_accounts@[i].schedules@
                }
        },
{
    let mut infos: Vec<(String, VestingInfo)> = Vec::new();
    let mut i: usize = 0;
    while i < vesting_accounts.len()
        invariant
            i <= vesting_accounts@.len(),
            forall|j: int| 0 <= j < i ==> schedules_valid(#[trigger] vesting_accounts@[j].schedules@),
            infos@.len() == i,
            forall|j: int|
                0 <= j < i ==> {
                    &&& (#[trigger] infos@[j]).0 == vesting_accounts@[j].address
                    &&& infos@[j].1.last_claim_time == config.genesis_time
                    &&& infos@[j].1.schedules@ == vesting_accounts@[j].schedules@
                },
        decreases vesting_accounts@.len() - i,
    {
        let account = &vesting_accounts[i];
        match assert_vesting_schedules(&account.schedules) {
            Ok(()) => {},
            Err(e) => {
                return Err(e);
            },
        }
        let schedules = clone_schedules(&account.schedules);
        let address = account.address.clone();
        infos.push((address, VestingInfo { last_claim_time: config.genesis_time, schedules }));
        i = i + 1;
    }
    Ok(infos)
}

fn clone_schedules(ss: &Vec<Schedule>) -> (r: Vec<Schedule>)
    ensures
        r@ == ss@,
{
    let mut out: Vec<Schedule> = Vec::new();
    let mut i: usize = 0;
    while i < ss.len()
        invariant
            i <= ss@.len(),
            out@ == ss@.take(i as int),
        decreases ss@.len() - i,
    {
        out.push(ss[i]);
        proof {
            assert(ss@.take(i + 1) =~= ss@.take(i as int).push(ss@[i as int]));
        }
        i = i + 1;
    }
    proof {
        assert(ss@.take(ss@.len() as int) =~= ss@);
    }
    out
}

/// What an account may claim at `current_time`: what its schedules released
/// since its last claim.
pub fn compute_claim_amount(current_time: u64, vesting_info: &VestingInfo) -> (amount: u128)
    requires
        total_released_defined(vesting_info.schedules@, vesting_info.last_claim_time, current_time),
    ensures
        amount == total_release(vesting_info.schedules@, vesting_info.last_claim_time, current_time),
{
    total_released(&vesting_info.schedules, vesting_info.last_claim_time, current_time)
}

/// A block time in nanoseconds as whole seconds.
pub open spec fn seconds_of(nanos: u64) -> u64 {
    nanos / 1_000_000_000
}

/// Claims what an account's schedules released since its last claim, at
/// block time `time_nanos`: returns the account's vesting information with
/// the claim time moved to now, and the amount to send (nothing is sent
/// where it is zero).
pub fn claim(vesting_info: VestingInfo, time_nanos: u64) -> (r: (VestingInfo, u128))
    requires
        total_released_defined(vesting_info.schedules@, vesting_info.last_claim_time, seconds_of(time_nanos)),
    ensures
        r.0.last_claim_time == seconds_of(time_nanos),
        r.0.schedules@ == vesting_info.schedules@,
        r.1 == total_release(vesting_info.schedules@, vesting_info.last_claim_time, seconds_of(time_nanos)),
{
    let current_time = time_nanos / 1_000_000_000;
    let claim_amount = compute_claim_amount(current_time, &vesting_info);
    let mut info = vesting_info;
    info.last_claim_time = current_time;
    (info, claim_amount)
}

/// Claiming again at the same time releases nothing.
pub proof fn lemma_claim_twice_releases_nothing(ss: Seq<Schedule>, time: u64)
    ensures
        total_release(ss, time, time) == 0,
{
    lemma_no_release_over_empty_range(ss, time);
}

/// What successive claims from `from` at the times `times`, in order, pay in
/// all: each claim pays what was released since the one before.
pub open spec fn claims_total(ss: Seq<Schedule>, from: u64, times: Seq<u64>) -> int
    decreases times.len(),
{
    if times.len() == 0 {
        0
    } else {
        total_release(ss, from, times[0]) + claims_total(ss, times[0], times.subrange(1, times.len() as int))
    }
}

/// Successive claims pay no more than one claim over the whole time.
proof fn lemma_claims_within_one_claim(ss: Seq<Schedule>, from: u64, times: Seq<u64>)
    requires
        schedules_valid(ss),
        times.len() > 0,
        from <= times[0],
        forall|i: int, j: int| 0 <= i <= j < times.len() ==> times[i] <= times[j],
    ensures
        claims_total(ss, from, times) <= total_release(ss, from, times.last()),
    decreases times.len(),
{
    let rest = times.subrange(1, times.len() as int);
    if rest.len() == 0 {
        assert(claims_total(ss, times[0], rest) == 0);
    } else {
        assert(rest[0] == times[1]);
        assert forall|i: int, j: int| 0 <= i <= j < rest.len() implies rest[i] <= rest[j] by {
            assert(rest[i] == times[i + 1] && rest[j] == times[j + 1]);
        }
        lemma_claims_within_one_claim(ss, times[0], rest);
        assert(rest.last() == times.last());
        assert(times[0] <= times[times.len() - 1]);
        lemma_total_release_split(ss, from, times[0], times.last());
    }
}

/// An account that claims again and again, at times that never go back,
/// is paid in all at most the sum of its schedules' amounts.
pub proof fn lemma_successive_claims_within_schedules(ss: Seq<Schedule>, from: u64, times: Seq<u64>)
    requires
        schedules_valid(ss),
        times.len() > 0,
        from <= times[0],
        forall|i: int, j: int| 0 <= i <= j < times.len() ==> times[i] <= times[j],
        forall|i: int| 0 <= i < ss.len() ==> schedule_release_defined(#[trigger] ss[i], from, times.last()),
    ensures
        claims_total(ss, from, times) <= total_release(ss, from, times.last()),
        total_release(ss, from, times.last()) <= total_amount(ss),
{
    lemma_claims_within_one_claim(ss, from, times);
    assert(times[0] <= times[times.len() - 1]);
    lemma_total_release_bounded(ss, from, times.last());
}

/// The range start after `start_after`: its key with a one byte appended.
pub fn calc_range_start_addr(start_after: Option<Vec<u8>>) -> (r: Option<Vec<u8>>)
    ensures
        match start_after {
            Some(a) => r matches Some(v) && v@ == a@.push(1u8),
            None => r is None,
        },
{
    match start_after {
        Some(a) => {
            let mut v = a;
            v.push(1u8);
            Some(v)
        },
        None => None,
    }
}

/// The range end before `start_after`: its key.
pub fn calc_range_end_addr(start_after: Option<Vec<u8>>) -> (r: Option<Vec<u8>>)
    ensures
        r == start_after,
{
    start_after
}

/// The number of accounts a query returns: the limit asked for, ten by
/// default, at most thirty.
pub fn query_limit(limit: Option<u32>) -> (r: u32)
    ensures
        r == match limit {
            Some(l) => if l <= MAX_LIMIT { l } else { MAX_LIMIT },
            None => DEFAULT_LIMIT,
        },
{
    let l = match limit {
        Some(l) => l,
        None => DEFAULT_LIMIT,
    };
    if l <= MAX_LIMIT { l } else { MAX_LIMIT }
}

} // verus!
