use ballot_anchor::ledger::{
    anchor_action, anchor_next, anchor_transaction, explorer_url, parse_poll_key, poll_address,
    AnchorAction, AnchorStage, KeyError,
};
use ballot_anchor::retrieve_from_chain;

const KEY: &str = "4c0883a69102937d6231471b5dbb6204fe5129617082792ae468d01a3f362318";

#[test]
fn key_not_hex() {
    assert_eq!(parse_poll_key("zz").err(), Some(KeyError::NotHex));
}

#[test]
fn key_wrong_length() {
    assert_eq!(parse_poll_key("0102").err(), Some(KeyError::InvalidKey));
}

#[test]
fn key_zero() {
    let zero = "00".repeat(32);
    assert_eq!(parse_poll_key(&zero).err(), Some(KeyError::InvalidKey));
}

#[test]
fn key_above_order() {
    let high = "ff".repeat(32);
    assert_eq!(parse_poll_key(&high).err(), Some(KeyError::InvalidKey));
}

#[test]
fn key_address() {
    let key = parse_poll_key(KEY).ok().unwrap();
    assert_eq!(key.bytes(), &hex::decode(KEY).unwrap());
    assert_eq!(hex::encode(poll_address(&key)), "2c7536e3605d9c16a7a3d7b1898e529396a65c23");
}

#[test]
fn anchor_goes_to_own_address() {
    let key = parse_poll_key(KEY).ok().unwrap();
    let root = vec![7u8; 32];
    let tx = anchor_transaction(&key, root.clone());
    assert_eq!(tx.to, poll_address(&key));
    assert_eq!(tx.data, root);
    assert_eq!(tx.value, 0);
}

#[test]
fn explorer_query() {
    let url = explorer_url(&[0xab, 0x01], "KEY");
    assert_eq!(
        url,
        "https://api-ropsten.etherscan.io/api?module=account&action=txlist&address=0xab01&startblock=0&endblock=99999999&sort=asc&apikey=KEY"
    );
}

#[test]
fn anchor_steps_in_order() {
    let mut stage = AnchorStage::Idle;
    let mut actions = vec![];
    while anchor_action(stage) != AnchorAction::Stop {
        actions.push(anchor_action(stage));
        stage = anchor_next(stage, true);
    }
    assert_eq!(actions, vec![AnchorAction::EstimateGas, AnchorAction::Sign, AnchorAction::SendRaw]);
    assert_eq!(stage, AnchorStage::Broadcast);
}

#[test]
fn anchor_failure_is_final() {
    assert_eq!(anchor_next(AnchorStage::GasEstimated, false), AnchorStage::Failed);
    assert_eq!(anchor_next(AnchorStage::Failed, true), AnchorStage::Failed);
    assert_eq!(anchor_action(AnchorStage::Failed), AnchorAction::Stop);
}

#[test]
fn retrieve_is_zero() {
    assert_eq!(retrieve_from_chain(vec![1, 2, 3]), 0);
}
