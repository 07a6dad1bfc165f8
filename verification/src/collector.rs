//! Collector: protocol fees swapped to ANC; a share of the ANC goes to
//! governance as rewards and the rest is burned.
use vstd::prelude::*;
use crate::math::{Decimal, DECIMAL_FRACTIONAL, checked_mul_div, mul_decimal, mul_decimal_floor, mul_rem};

verus! {

/// The reply identifier of a sweep's swap.
pub const SWEEP_REPLY_ID: u64 = 1;

/// The errors the collector answers with.
#[derive(Clone, Copy, Debug, PartialEq, Eq, Structural)]
pub enum ContractError {
    Unauthorized,
    /// The share for governance exceeds the amount held.
    Overflow,
    /// A reply the collector does not expect.
    NotSupportedReply,
}

/// The collector settings (addresses as the contract stores them).
#[derive(Clone, Debug, PartialEq, Eq)]
pub struct Config {
    pub gov_contract: String,
    pub terraswap_factory: String,
    pub anchor_token: String,
    pub reward_factor: Decimal,
}

/// Sets a new reward factor, where one is given; only governance may.
pub fn update_config(config: Config, sender: &String, reward_factor: Option<Decimal>) -> (r: Result<Config, ContractError>)
    ensures
        config.gov_contract@ != sender@ ==> r == Err::<Config, ContractError>(ContractError::Unauthorized),
        config.gov_contract@ == sender@ ==> r == Ok::<Config, ContractError>(Config {
            reward_factor: match reward_factor {
                Some(f) => f,
                None => config.reward_factor,
            },
            ..config
        }),
{
    if !sender.eq(&config.gov_contract) {
        return Err(ContractError::Unauthorized);
    }
    let mut config = config;
    match reward_factor {
        Some(f) => {
            config.reward_factor = f;
        },
        None => {},
    }
    Ok(config)
}

/// How the ANC held is split: the share sent to governance and the rest,
/// burned, and the messages owed: a transfer of the share to governance and
/// a burn of the rest, each only where its amount is not zero.
#[derive(Clone, Copy, Debug, PartialEq, Eq, Structural)]
pub struct Distribution {
    pub distribute_amount: u128,
    pub left_amount: u128,
    pub transfer: Option<u128>,
    pub burn: Option<u128>,
}

/// The message owed for an amount: none for zero.
pub open spec fn owed(amount: int) -> Option<u128> {
    if amount == 0 { None } else { Some(amount as u128) }
}

/// The share of `amount` for governance is a whole number of tokens (the
/// share is read back as an integer).
pub open spec fn distribute_defined(amount: u128, reward_factor: Decimal) -> bool {
    &&& amount * DECIMAL_FRACTIONAL <= u128::MAX
    &&& (amount * reward_factor.atomics) % (DECIMAL_FRACTIONAL as int) == 0
    &&& mul_decimal_floor(amount as int, reward_factor) <= u128::MAX
}

/// Whether the ANC held can be split: `distribute_defined`, tested.
pub fn distribute_is_defined(amount: u128, reward_factor: Decimal) -> (b: bool)
    ensures
        b == distribute_defined(amount, reward_factor),
{
    checked_mul_div(amount, DECIMAL_FRACTIONAL, 1).is_some() && mul_rem(amount, reward_factor.atomics, DECIMAL_FRACTIONAL)
        == 0 && checked_mul_div(amount, reward_factor.atomics, DECIMAL_FRACTIONAL).is_some()
}

/// Splits the ANC held (`amount`): `amount * reward_factor` goes to
/// governance and the rest is burned; a zero part sends no message. A
/// factor above one asks for more than is held and fails.
pub fn distribute(config: &Config, amount: u128) -> (r: Result<Distribution, ContractError>)
    requires
        distribute_defined(amount, config.reward_factor),
    ensures
        mul_decimal_floor(amount as int, config.reward_factor) > amount ==> r == Err::<Distribution, ContractError>(
            ContractError::Overflow,
        ),
        mul_decimal_floor(amount as int, config.reward_factor) <= amount ==> r == Ok::<Distribution, ContractError>(
            Distribution {
                distribute_amount: mul_decimal_floor(amount as int, config.reward_factor) as u128,
                left_amount: (amount - mul_decimal_floor(amount as int, config.reward_factor)) as u128,
                transfer: owed(mul_decimal_floor(amount as int, config.reward_factor)),
                burn: owed(amount - mul_decimal_floor(amount as int, config.reward_factor)),
            },
        ),
{
    let distribute_amount = mul_decimal(amount, config.reward_factor);
    if distribute_amount > amount {
        return Err(ContractError::Overflow);
    }
    let left_amount = amount - distribute_amount;
    let transfer = if distribute_amount != 0 { Some(distribute_amount) } else { None };
    let burn = if left_amount != 0 { Some(left_amount) } else { None };
    Ok(Distribution { distribute_amount, left_amount, transfer, burn })
}

/// Nothing is lost or created: the governance share and the burned rest add
/// up to the amount held.
pub proof fn lemma_distribution_conserves(amount: u128, reward_factor: Decimal)
    requires
        mul_decimal_floor(amount as int, reward_factor) <= amount,
    ensures
        mul_decimal_floor(amount as int, reward_factor) + (amount - mul_decimal_floor(amount as int, reward_factor))
            == amount,
{
}

/// A reply is handled only for the sweep's swap.
pub fn check_reply(id: u64) -> (r: Result<(), ContractError>)
    ensures
        r is Ok <==> id == SWEEP_REPLY_ID,
        r is Err ==> r == Err::<(), ContractError>(ContractError::NotSupportedReply),
{
    if id == SWEEP_REPLY_ID {
        Ok(())
    } else {
        Err(ContractError::NotSupportedReply)
    }
}


/// The collector's queries.
#[derive(Clone, Copy, Debug, PartialEq, Eq, Structural)]
pub enum QueryMsg {
    Config {},
}

/// The settings answer.
#[derive(Clone, Debug, PartialEq, Eq)]
pub struct ConfigResponse {
    pub gov_contract: String,
    pub terraswap_factory: String,
    pub anchor_token: String,
    pub reward_factor: Decimal,
}

} // verus!
