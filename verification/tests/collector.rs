use anchor_token::collector::distribute_is_defined;
use anchor_token::collector::{check_reply, distribute, update_config, Config, ContractError, Distribution};
use anchor_token::math::Decimal;

fn config() -> Config {
    Config {
        gov_contract: "gov".to_string(),
        terraswap_factory: "terraswapfactory".to_string(),
        anchor_token: "tokenANC".to_string(),
        reward_factor: Decimal::from_ratio(90, 100),
    }
}

#[test]
fn test_distribute() {
    assert_eq!(check_reply(1), Ok(()));
    let d = distribute(&config(), 100).unwrap();
    assert_eq!(d, Distribution { distribute_amount: 90, left_amount: 10, transfer: Some(90), burn: Some(10) });
}

#[test]
fn testing_update_config() {
    let c = update_config(config(), &"gov".to_string(), Some(Decimal::from_ratio(80, 100))).unwrap();
    assert_eq!(c.reward_factor, Decimal::from_ratio(80, 100));
    assert_eq!(
        update_config(config(), &"addr0000".to_string(), Some(Decimal::from_ratio(80, 100))),
        Err(ContractError::Unauthorized)
    );
}

#[test]
fn collector_refuses_other_replies_and_overshares() {
    assert_eq!(check_reply(2), Err(ContractError::NotSupportedReply));
    let mut c = config();
    c.reward_factor = Decimal::from_ratio(2, 1);
    assert_eq!(distribute(&c, 100), Err(ContractError::Overflow));
    c.reward_factor = Decimal::one();
    assert_eq!(distribute(&c, 100), Ok(Distribution { distribute_amount: 100, left_amount: 0, transfer: Some(100), burn: None }));
}

#[test]
fn distribution_definedness() {
    assert!(distribute_is_defined(1000, Decimal::from_ratio(1, 2)));
    // half of an odd amount is not a whole number of tokens
    assert!(!distribute_is_defined(1001, Decimal::from_ratio(1, 2)));
    // the amount as a decimal must fit
    assert!(!distribute_is_defined(u128::MAX, Decimal::one()));
    assert!(distribute_is_defined(0, Decimal::from_ratio(1, 3)));
}

#[test]
fn distribution_sends_no_empty_message() {
    let mut c = config();
    c.reward_factor = Decimal::zero();
    let d = distribute(&c, 100).unwrap();
    assert_eq!(d.transfer, None);
    assert_eq!(d.burn, Some(100));
}
