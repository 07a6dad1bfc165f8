use anchor_token::airdrop::is_hex_root;
use anchor_token::airdrop::{bytes_cmp, claim, decimal_bytes, register_merkle_root, update_config, ContractError};
use sha3::Digest;
use std::cmp::Ordering;

fn keccak(data: &[u8]) -> Vec<u8> {
    sha3::Keccak256::digest(data).to_vec()
}

fn leaf(addr: &str, amount: u128) -> Vec<u8> {
    keccak(format!("{}{}", addr, amount).as_bytes())
}

fn pair(a: &[u8], b: &[u8]) -> Vec<u8> {
    if a < b { keccak(&[a, b].concat()) } else { keccak(&[b, a].concat()) }
}

#[test]
fn merkle_claims() {
    let l1 = leaf("addr0000", 1000001);
    let l2 = leaf("addr0001", 2000002);
    let root = hex::encode(pair(&l1, &l2));
    let proof1 = vec![hex::encode(&l2)];
    let proof2 = vec![hex::encode(&l1).to_uppercase()];

    assert_eq!(claim(&root, false, "addr0000", 1000001, &proof1), Ok(()));
    assert_eq!(claim(&root, false, "addr0001", 2000002, &proof2), Ok(()));
    assert_eq!(claim(&root, false, "addr0000", 1000002, &proof1), Err(ContractError::MerkleVerification));
    assert_eq!(claim(&root, false, "addr0001", 1000001, &proof1), Err(ContractError::MerkleVerification));
    assert_eq!(claim(&root, true, "addr0000", 1000001, &proof1), Err(ContractError::AlreadyClaimed));
    assert_eq!(
        claim(&root, false, "addr0000", 1000001, &vec!["zz".to_string()]),
        Err(ContractError::InvalidHexProof)
    );
    // a lone leaf is its own root
    let lone = hex::encode(leaf("addr0002", 7));
    assert_eq!(claim(&lone, false, "addr0002", 7, &Vec::new()), Ok(()));
}

#[test]
fn merkle_root_registration() {
    let owner = "owner0000".to_string();
    let root = "634de21cde1044f41d90373733b0f0fb1c1c71f9652b905cdf159e73c4cf0d37";
    assert_eq!(register_merkle_root(&owner, &owner, root, 0), Ok(1));
    assert_eq!(register_merkle_root(&owner, &owner, "invalid", 0), Err(ContractError::InvalidHexMerkle));
    assert_eq!(register_merkle_root(&owner, &"addr0000".to_string(), root, 0), Err(ContractError::Unauthorized));
    assert_eq!(update_config(&owner, &owner, Some("owner0001".to_string())), Ok(Some("owner0001".to_string())));
    assert_eq!(update_config(&owner, &"addr0000".to_string(), None), Err(ContractError::Unauthorized));
}

#[test]
fn byte_order_and_decimals() {
    let mut a = vec![0u8; 32];
    let b = vec![0u8; 32];
    assert_eq!(bytes_cmp(&a, &b), Ordering::Equal);
    a[31] = 1;
    assert_eq!(bytes_cmp(&a, &b), Ordering::Greater);
    assert_eq!(bytes_cmp(&b, &a), Ordering::Less);
    assert_eq!(decimal_bytes(0), b"0".to_vec());
    assert_eq!(decimal_bytes(1234567890), b"1234567890".to_vec());
    assert_eq!(decimal_bytes(u128::MAX), u128::MAX.to_string().into_bytes());
}

#[test]
fn merkle_root_format() {
    assert!(is_hex_root("634de21cde1044f41d90373733b0f0fb1c1c71f9652b905cdf159e73c4cf0d37"));
    assert!(is_hex_root("634DE21CDE1044F41D90373733B0F0FB1C1C71F9652B905CDF159E73C4CF0D37"));
    assert!(!is_hex_root("634de21cde1044f41d90373733b0f0fb1c1c71f9652b905cdf159e73c4cf0d3"));
    assert!(!is_hex_root("zz4de21cde1044f41d90373733b0f0fb1c1c71f9652b905cdf159e73c4cf0d37"));
}
