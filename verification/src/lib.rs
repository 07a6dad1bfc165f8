//! Verified core of the Anchor token contracts: voting escrow checkpoints,
//! gauge weights, staking rewards, vesting, governance staking shares,
//! airdrop claims, and the distributor and collector rules.

pub mod math;
pub mod common;
pub mod tax;
pub mod voting_escrow;
pub mod gauge_controller;
pub mod schedule;
pub mod staking;
pub mod vesting;
pub mod distributor;
pub mod collector;
pub mod gov;
pub mod airdrop;
