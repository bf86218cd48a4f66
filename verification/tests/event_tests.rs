use bridge_codec::eth_address::{get_eth_address, EthAddress};
use bridge_codec::events::{remove_prefix, Event};
use bridge_codec::records::{TransferDataEthereum, TransferDataNear, TransferMessage};

fn token() -> String {
    "token.near".to_string()
}

fn sample_address() -> EthAddress {
    get_eth_address("71C7656EC7ab88b098defB751B7401B5f6d8976F".to_string())
}

fn sample_message() -> TransferMessage {
    TransferMessage {
        valid_till: 0,
        valid_till_block_height: Some(0),
        transfer: TransferDataEthereum {
            token_near: token(),
            token_eth: sample_address(),
            amount: 100,
        },
        fee: TransferDataNear {
            token: token(),
            amount: 100,
        },
        recipient: sample_address(),
        aurora_sender: Some(EthAddress(vec![0u8; 20])),
    }
}

#[test]
fn transfer_event_test() {
    let nonce: u128 = 238;
    let sender_id = "sender.near".to_string();

    let log_data_str = Event::FastBridgeInitTransferEvent {
        nonce,
        sender_id,
        transfer_message: sample_message(),
    }
    .emit();

    let expected_result_str = r#"EVENT_JSON:{"standard":"nep297","version":"1.0.0","event":"fast_bridge_init_transfer_event","data":{"nonce":"238","sender_id":"sender.near","transfer_message":{"aurora_sender":"0000000000000000000000000000000000000000","valid_till":0,"valid_till_block_height":0,"transfer":{"token_near":"token.near","token_eth": "71c7656ec7ab88b098defb751b7401b5f6d8976f","amount":"100"},"fee":{"token":"token.near","amount":"100"},"recipient": "71c7656ec7ab88b098defb751b7401b5f6d8976f"}}}"#;

    let json1 = remove_prefix(&log_data_str).unwrap();
    let json2 = remove_prefix(expected_result_str).unwrap();

    assert_eq!(json1, json2)
}

#[test]
fn unlock_event_test() {
    let nonce: u128 = 238;
    let recipient_id = "recipient.near".to_string();

    let log_data_str = Event::FastBridgeUnlockEvent {
        nonce,
        recipient_id,
        transfer_message: sample_message(),
    }
    .emit();

    let expected_result_str = r#"EVENT_JSON:{"standard":"nep297","version":"1.0.0","event":"fast_bridge_unlock_event","data":{"nonce":"238","recipient_id":"recipient.near","transfer_message":{"aurora_sender":"0000000000000000000000000000000000000000","valid_till":0,"valid_till_block_height":0,"transfer":{"token_near":"token.near","token_eth": "71c7656ec7ab88b098defb751b7401b5f6d8976f","amount":"100"},"fee":{"token":"token.near","amount":"100"},"recipient": "71c7656ec7ab88b098defb751b7401b5f6d8976f"}}}"#;

    let json1 = remove_prefix(&log_data_str).unwrap();
    let json2 = remove_prefix(expected_result_str).unwrap();

    assert_eq!(json1, json2)
}

#[test]
fn deposit_event_test() {
    let log_data_str = Event::FastBridgeDepositEvent {
        sender_id: "alice.near".to_string(),
        token: token(),
        amount: 300,
    }
    .emit();

    let expected_result_str = r#"EVENT_JSON:{"standard":"nep297","version":"1.0.0","event":"fast_bridge_deposit_event","data":{"sender_id":"alice.near","token":"token.near","amount":"300"}}"#;

    let json1 = remove_prefix(&log_data_str).unwrap();
    let json2 = remove_prefix(expected_result_str).unwrap();

    assert_eq!(json1, json2)
}

#[test]
fn deposit_event_line_is_bit_exact() {
    let line = Event::FastBridgeDepositEvent {
        sender_id: "alice.near".to_string(),
        token: "token.near".to_string(),
        amount: 300,
    }
    .emit();
    assert_eq!(
        line,
        r#"EVENT_JSON:{"standard":"nep297","version":"1.0.0","event":"fast_bridge_deposit_event","data":{"sender_id":"alice.near","token":"token.near","amount":"300"}}"#
    );
}

#[test]
fn withdraw_event_renders_absent_sender_as_null() {
    let line = Event::FastBridgeWithdrawEvent {
        sender_id: None,
        recipient_id: "bob.near".to_string(),
        token: token(),
        amount: 5,
    }
    .emit();
    assert_eq!(
        line,
        r#"EVENT_JSON:{"standard":"nep297","version":"1.0.0","event":"fast_bridge_withdraw_event","data":{"sender_id":null,"recipient_id":"bob.near","token":"token.near","amount":"5"}}"#
    );
}

#[test]
fn lp_unlock_event_tag() {
    let line = Event::FastBridgeLpUnlockEvent {
        nonce: 1,
        recipient_id: "bob.near".to_string(),
        transfer_message: sample_message(),
    }
    .emit();
    let body = remove_prefix(&line).unwrap();
    assert_eq!(body["event"], "fast_bridge_lp_unlock_event");
    assert_eq!(body["standard"], "nep297");
    assert_eq!(body["version"], "1.0.0");
    assert_eq!(body["data"]["nonce"], "1");
}

#[test]
fn remove_prefix_demands_the_marker() {
    assert!(remove_prefix(r#"{"standard":"nep297"}"#).is_none());
    assert!(remove_prefix("EVENT_JSO:{}").is_none());
    assert!(remove_prefix("").is_none());
}

#[test]
fn remove_prefix_demands_well_formed_json() {
    assert!(remove_prefix("EVENT_JSON:{not json").is_none());
    assert!(remove_prefix("EVENT_JSON:").is_none());
    let v = remove_prefix("EVENT_JSON:{\"a\":1}").unwrap();
    assert_eq!(v["a"], 1);
}
