//! Ethereum address and default account identifier derivation.

use storage_layout::eth::ECDSAPublicKey;

const PUB_KEY: [u8; 33] = [
    2, 121, 190, 102, 126, 249, 220, 187, 172, 85, 160, 98, 149, 206, 135, 11, 7, 2, 155, 252,
    219, 45, 206, 40, 217, 89, 242, 129, 91, 22, 248, 23, 152,
];

const EXPECTED_ETH_ADDRESS: [u8; 20] = [
    126, 95, 69, 82, 9, 26, 105, 18, 93, 93, 252, 183, 184, 194, 101, 144, 41, 57, 91, 223,
];

const EXPECTED_ACCOUNT_ID: [u8; 32] = [
    41, 117, 241, 210, 139, 146, 182, 232, 68, 153, 184, 59, 7, 151, 239, 82, 53, 85, 62, 235,
    126, 218, 160, 206, 162, 67, 193, 18, 140, 47, 231, 55,
];

#[test]
fn to_eth_address_works() {
    let pub_key = ECDSAPublicKey(PUB_KEY);
    assert_eq!(pub_key.to_eth_address().0, EXPECTED_ETH_ADDRESS);
}

#[test]
fn try_to_eth_address_accepts_valid_keys() {
    let pub_key = ECDSAPublicKey(PUB_KEY);
    assert_eq!(pub_key.try_to_eth_address().unwrap().0, EXPECTED_ETH_ADDRESS);
}

#[test]
fn try_to_eth_address_rejects_invalid_keys() {
    // A leading tag byte other than 2 or 3 is not a compressed point.
    let invalid = ECDSAPublicKey([0; 33]);
    assert!(invalid.try_to_eth_address().is_none());
}

#[test]
fn to_default_account_id_works() {
    let pub_key = ECDSAPublicKey(PUB_KEY);
    assert_eq!(pub_key.to_default_account_id().0, EXPECTED_ACCOUNT_ID);
}

#[test]
fn default_key_is_zeroed() {
    let pub_key = ECDSAPublicKey::default();
    assert_eq!(pub_key.0, [0u8; 33]);
}
