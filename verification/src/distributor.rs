//! Distributor: ANC held for borrower incentives, spent by whitelisted
//! distributors within a spend limit, under the governance contract.
use vstd::prelude::*;
use crate::math::{U256, two_pow_128};

verus! {

/// The errors the distributor answers with.
#[derive(Clone, Copy, Debug, PartialEq, Eq, Structural)]
pub enum ContractError {
    Unauthorized,
    DistributorAlreadyRegistered,
    DistributorNotFound,
    /// A spend above the spend limit.
    CannotSpendMoreThanSpendLimit,
}

/// The distributor settings (addresses as the contract stores them).
#[derive(Clone, Debug, PartialEq, Eq)]
pub struct Config {
    pub gov_contract: String,
    pub anchor_token: String,
    pub whitelist: Vec<String>,
    pub spend_limit: u128,
}

/// The rewards paid so far.
#[derive(Clone, Copy, Debug, PartialEq, Eq, Structural)]
pub struct State {
    pub paid_rewards: U256,
}

/// `a + b` for a 256-bit and a 128-bit integer; the sum must fit 256 bits.
pub fn add_u256(a: U256, b: u128) -> (r: U256)
    requires
        a.value() + b < two_pow_128() * two_pow_128(),
    ensures
        r.value() == a.value() + b,
{
    if a.lo <= u128::MAX - b {
        U256 { hi: a.hi, lo: a.lo + b }
    } else {
        proof {
            assert(a.hi < u128::MAX) by (nonlinear_arith)
                requires
                    a.hi * two_pow_128() + a.lo + b < two_pow_128() * two_pow_128(),
                    a.lo + b > u128::MAX,
                    two_pow_128() == u128::MAX + 1,
                    a.hi <= u128::MAX;
        }
        let lo = b - (u128::MAX - a.lo) - 1;
        U256 { hi: a.hi + 1, lo }
    }
}

/// Whether `a + b` fits 256 bits.
pub fn add_u256_fits(a: U256, b: u128) -> (r: bool)
    ensures
        r == (a.value() + b < two_pow_128() * two_pow_128()),
{
    proof {
        assert(a.hi < u128::MAX ==> a.value() + b < two_pow_128() * two_pow_128()) by (nonlinear_arith)
            requires
                a.value() == a.hi * two_pow_128() + a.lo,
                two_pow_128() == u128::MAX + 1,
                a.lo <= u128::MAX,
                b <= u128::MAX;
        assert(a.hi == u128::MAX ==> (a.value() + b < two_pow_128() * two_pow_128() <==> a.lo + b
            <= u128::MAX)) by (nonlinear_arith)
            requires
                a.value() == a.hi * two_pow_128() + a.lo,
                two_pow_128() == u128::MAX + 1;
    }
    a.hi < u128::MAX || a.lo <= u128::MAX - b
}

/// The address is in the list.
pub open spec fn listed(ws: Seq<String>, d: Seq<char>) -> bool {
    exists|i: int| 0 <= i < ws.len() && (#[trigger] ws[i])@ == d
}

/// The list without the entries equal to `d`, in order.
pub open spec fn without(ws: Seq<String>, d: Seq<char>) -> Seq<String>
    decreases ws.len(),
{
    if ws.len() == 0 {
        ws
    } else if ws.last()@ == d {
        without(ws.drop_last(), d)
    } else {
        without(ws.drop_last(), d).push(ws.last())
    }
}

fn is_listed(ws: &Vec<String>, d: &String) -> (b: bool)
    ensures
        b == listed(ws@, d@),
{
    let mut i: usize = 0;
    while i < ws.len()
        invariant
            i <= ws@.len(),
            forall|j: int| 0 <= j < i ==> (#[trigger] ws@[j])@ != d@,
        decreases ws@.len() - i,
    {
        if ws[i].eq(d) {
            return true;
        }
        i = i + 1;
    }
    false
}

/// Only the governance contract may change the settings.
fn assert_gov(config: &Config, sender: &String) -> (r: Result<(), ContractError>)
    ensures
        r is Ok <==> config.gov_contract@ == sender@,
        r is Err ==> r == Err::<(), ContractError>(ContractError::Unauthorized),
{
    if !config.gov_contract.eq(sender) {
        return Err(ContractError::Unauthorized);
    }
    Ok(())
}

/// Sets a new spend limit, where one is given; only governance may.
pub fn update_config(config: Config, sender: &String, spend_limit: Option<u128>) -> (r: Result<Config, ContractError>)
    ensures
        config.gov_contract@ != sender@ ==> r == Err::<Config, ContractError>(ContractError::Unauthorized),
        config.gov_contract@ == sender@ ==> (r matches Ok(c) && c.gov_contract == config.gov_contract
            && c.anchor_token == config.anchor_token && c.whitelist@ == config.whitelist@ && c.spend_limit
            == match spend_limit {
            Some(l) => l,
            None => config.spend_limit,
        }),
{
    assert_gov(&config, sender)?;
    let mut config = config;
    match spend_limit {
        Some(l) => {
            config.spend_limit = l;
        },
        None => {},
    }
    Ok(config)
}

/// Adds a distributor to the whitelist; only governance may, and only a
/// distributor not yet listed.
pub fn add_distributor(config: Config, sender: &String, distributor: String) -> (r: Result<Config, ContractError>)
    ensures
        config.gov_contract@ != sender@ ==> r == Err::<Config, ContractError>(ContractError::Unauthorized),
        config.gov_contract@ == sender@ && listed(config.whitelist@, distributor@) ==> r == Err::<
            Config,
            ContractError,
        >(ContractError::DistributorAlreadyRegistered),
        config.gov_contract@ == sender@ && !listed(config.whitelist@, distributor@) ==> (r matches Ok(c)
            && c.whitelist@ == config.whitelist@.push(distributor) && c.gov_contract == config.gov_contract
            && c.anchor_token == config.anchor_token && c.spend_limit == config.spend_limit),
{
    assert_gov(&config, sender)?;
    if is_listed(&config.whitelist, &distributor) {
        return Err(ContractError::DistributorAlreadyRegistered);
    }
    let mut config = config;
    config.whitelist.push(distributor);
    Ok(config)
}

/// Removes a distributor from the whitelist; only governance may, and only a
/// listed distributor.
pub fn remove_distributor(config: Config, sender: &String, distributor: &String) -> (r: Result<Config, ContractError>)
    ensures
        config.gov_contract@ != sender@ ==> r == Err::<Config, ContractError>(ContractError::Unauthorized),
        config.gov_contract@ == sender@ && !listed(config.whitelist@, distributor@) ==> r == Err::<
            Config,
            ContractError,
        >(ContractError::DistributorNotFound),
        config.gov_contract@ == sender@ && listed(config.whitelist@, distributor@) ==> (r matches Ok(c)
            && c.whitelist@ == without(config.whitelist@, distributor@) && c.gov_contract == config.gov_contract
            && c.anchor_token == config.anchor_token && c.spend_limit == config.spend_limit),
{
    assert_gov(&config, sender)?;
    let ghost ws = config.whitelist@;
    let mut kept: Vec<String> = Vec::new();
    let mut i: usize = 0;
    while i < config.whitelist.len()
        invariant
            ws == config.whitelist@,
            i <= ws.len(),
            kept@ == without(ws.take(i as int), distributor@),
            kept@.len() < i || (kept@.len() == i && forall|j: int| 0 <= j < i ==> (#[trigger] ws[j])@ != distributor@),
            kept@.len() <= i,
        decreases ws.len() - i,
    {
        proof {
            assert(ws.take(i + 1).drop_last() =~= ws.take(i as int));
        }
        let w = &config.whitelist[i];
        if !w.eq(distributor) {
            kept.push(w.clone());
        }
        i = i + 1;
    }
    proof {
        assert(ws.take(ws.len() as int) =~= ws);
        if kept@.len() == ws.len() {
            assert(!listed(ws, distributor@));
        }
        if !listed(ws, distributor@) {
            lemma_without_unlisted(ws, distributor@);
        }
    }
    if kept.len() == config.whitelist.len() {
        return Err(ContractError::DistributorNotFound);
    }
    let mut config = config;
    config.whitelist = kept;
    Ok(config)
}

/// Removing an address no entry holds leaves the list as it is.
pub proof fn lemma_without_unlisted(ws: Seq<String>, d: Seq<char>)
    requires
        !listed(ws, d),
    ensures
        without(ws, d) == ws,
    decreases ws.len(),
{
    if ws.len() > 0 {
        assert(!listed(ws.drop_last(), d)) by {
            if listed(ws.drop_last(), d) {
                let i = choose|i: int| 0 <= i < ws.drop_last().len() && (#[trigger] ws.drop_last()[i])@ == d;
                assert(ws[i] == ws.drop_last()[i]);
            }
        }
        lemma_without_unlisted(ws.drop_last(), d);
        assert(ws.last() == ws[ws.len() - 1]);
        assert(ws.drop_last().push(ws.last()) =~= ws);
    }
}

/// Removing a distributor just added restores the whitelist, where it was
/// not listed before.
pub proof fn lemma_remove_undoes_add(ws: Seq<String>, d: String)
    requires
        !listed(ws, d@),
    ensures
        listed(ws.push(d), d@),
        without(ws.push(d), d@) == ws,
{
    assert(ws.push(d)[ws.len() as int] == d);
    assert(ws.push(d).drop_last() =~= ws);
    lemma_without_unlisted(ws, d@);
}

/// A spend: the rewards paid after it and the amount sent to the recipient.
#[derive(Clone, Copy, Debug, PartialEq, Eq, Structural)]
pub struct Spend {
    pub state: State,
    pub amount: u128,
}

/// Spends `amount` ANC to a recipient: only a whitelisted distributor may,
/// and not more than the spend limit. The amount is added to the rewards
/// paid.
pub fn spend(config: &Config, state: State, sender: &String, amount: u128) -> (r: Result<Spend, ContractError>)
    requires
        state.paid_rewards.value() + amount < two_pow_128() * two_pow_128(),
    ensures
        !listed(config.whitelist@, sender@) ==> r == Err::<Spend, ContractError>(ContractError::Unauthorized),
        listed(config.whitelist@, sender@) && config.spend_limit < amount ==> r == Err::<Spend, ContractError>(
            ContractError::CannotSpendMoreThanSpendLimit,
        ),
        listed(config.whitelist@, sender@) && config.spend_limit >= amount ==> (r matches Ok(s)
            && s.amount == amount && s.state.paid_rewards.value() == state.paid_rewards.value() + amount),
{
    if !is_listed(&config.whitelist, sender) {
        return Err(ContractError::Unauthorized);
    }
    if config.spend_limit < amount {
        return Err(ContractError::CannotSpendMoreThanSpendLimit);
    }
    Ok(Spend { state: State { paid_rewards: add_u256(state.paid_rewards, amount) }, amount })
}

/// The total rewards allocated: those paid plus the balance held.
pub fn query_total_rewards(state: State, balance: u128) -> (r: U256)
    requires
        state.paid_rewards.value() + balance < two_pow_128() * two_pow_128(),
    ensures
        r.value() == state.paid_rewards.value() + balance,
{
    add_u256(state.paid_rewards, balance)
}


/// The distributor's queries.
#[derive(Clone, Copy, Debug, PartialEq, Eq, Structural)]
pub enum QueryMsg {
    Config {},
    State {},
    /// The rewards allocated so far: paid plus held.
    TotalRewards {},
}

/// The settings answer.
#[derive(Clone, Debug, PartialEq, Eq)]
pub struct ConfigResponse {
    pub gov_contract: String,
    pub anchor_token: String,
    pub whitelist: Vec<String>,
    pub spend_limit: u128,
}

} // verus!
