use bridge_codec::error::{CodecError, DecodeField};
use bridge_codec::eth_address::{get_eth_address, EthAddress};
use bridge_codec::records::{TransferDataEthereum, TransferDataNear, TransferMessage};

fn token() -> String {
    "token.near".to_string()
}

fn sample_address() -> EthAddress {
    get_eth_address("71C7656EC7ab88b098defB751B7401B5f6d8976F".to_string())
}

fn sample_message(aurora_sender: Option<EthAddress>) -> TransferMessage {
    TransferMessage {
        valid_till: 0,
        valid_till_block_height: Some(0),
        transfer: TransferDataEthereum {
            token_near: token(),
            token_eth: sample_address(),
            amount: 100,
        },
        fee: TransferDataNear {
            token: token(),
            amount: 100,
        },
        recipient: sample_address(),
        aurora_sender,
    }
}

#[test]
fn v2_borsh_deserialization_test() {
    let transfer_message = sample_message(Some(EthAddress(vec![0u8; 20])));
    let encode = transfer_message.encode();
    let decode_transfer_message = TransferMessage::decode(&encode).unwrap();
    assert_eq!(transfer_message, decode_transfer_message);
}

#[test]
fn v1_borsh_deserialization_test() {
    let transfer_message = sample_message(None);
    let mut encode = transfer_message.encode();
    encode.pop();
    let decode_transfer_message = TransferMessage::decode(&encode).unwrap();
    assert_eq!(transfer_message, decode_transfer_message);
}

#[test]
fn truncating_aurora_sender_yields_absent() {
    let with_aurora = sample_message(Some(EthAddress(vec![7u8; 20])));
    let mut encode = with_aurora.encode();
    // Cut the whole trailing presence-flag-plus-value field.
    for _ in 0..21 {
        encode.pop();
    }
    let decoded = TransferMessage::decode(&encode).unwrap();
    assert_eq!(decoded, sample_message(None));
}

#[test]
fn truncating_both_trailing_fields_yields_both_absent() {
    let full = sample_message(Some(EthAddress(vec![7u8; 20])));
    let mut encode = full.encode();
    // Cut aurora_sender (flag + 20 bytes) and valid_till_block_height
    // (flag + 8 bytes).
    for _ in 0..30 {
        encode.pop();
    }
    let decoded = TransferMessage::decode(&encode).unwrap();
    let mut expected = sample_message(None);
    expected.valid_till_block_height = None;
    assert_eq!(decoded, expected);
}

#[test]
fn truncation_inside_recipient_is_malformed() {
    let m = sample_message(None);
    let mut encode = m.encode();
    // Drop the whole trailing suffix (flag + 8 bytes, then the absent-aurora
    // flag) and ten more bytes, so the stream now ends inside `recipient`.
    for _ in 0..20 {
        encode.pop();
    }
    assert_eq!(
        TransferMessage::decode(&encode),
        Err(CodecError::MalformedData(DecodeField::Recipient))
    );
}

#[test]
fn truncation_inside_account_is_malformed() {
    let m = sample_message(None);
    let encode = m.encode();
    // Keep the 8-byte valid_till and the 4-byte length prefix, then cut the
    // account text short.
    let cut: Vec<u8> = encode[..14].to_vec();
    assert_eq!(
        TransferMessage::decode(&cut),
        Err(CodecError::MalformedData(DecodeField::TokenNear))
    );
}

#[test]
fn corrupt_optional_flag_is_malformed() {
    let m = sample_message(None);
    let mut encode = m.encode();
    // The valid_till_block_height presence flag sits 10 bytes from the end
    // here (flag + 8-byte value + absent-aurora flag).
    let flag_at = encode.len() - 10;
    encode[flag_at] = 9;
    assert_eq!(
        TransferMessage::decode(&encode),
        Err(CodecError::MalformedData(DecodeField::ValidTillBlockHeight))
    );
}

#[test]
fn malformed_final_aurora_tag_is_absorbed() {
    // A presence tag that is neither 0 nor 1 as the stream's final byte:
    // the tag is consumed, the field resolves to absent, the decode
    // succeeds.
    let m = sample_message(None);
    let mut encode = m.encode();
    let tag_at: usize = encode.len() - 1;
    encode[tag_at] = 7;
    assert_eq!(TransferMessage::decode(&encode).unwrap(), m);
}

#[test]
fn truncated_final_aurora_value_is_absorbed() {
    // A tag of 1 promising a value the stream no longer holds, as the final
    // byte: absorbed the same way.
    let m = sample_message(None);
    let mut encode = m.encode();
    let tag_at: usize = encode.len() - 1;
    encode[tag_at] = 1;
    assert_eq!(TransferMessage::decode(&encode).unwrap(), m);
}

#[test]
fn malformed_aurora_tag_with_leftover_bytes_is_malformed() {
    // The same malformed tag followed by more bytes leaves data unconsumed,
    // which rejects the stream.
    let m = sample_message(None);
    let mut encode = m.encode();
    let tag_at: usize = encode.len() - 1;
    encode[tag_at] = 7;
    encode.push(0);
    assert_eq!(
        TransferMessage::decode(&encode),
        Err(CodecError::MalformedData(DecodeField::Trailing))
    );
}

#[test]
fn trailing_garbage_is_malformed() {
    let m = sample_message(Some(EthAddress(vec![7u8; 20])));
    let mut encode = m.encode();
    encode.push(0xff);
    assert_eq!(
        TransferMessage::decode(&encode),
        Err(CodecError::MalformedData(DecodeField::Trailing))
    );
}

#[test]
fn bad_account_byte_is_malformed() {
    let m = sample_message(None);
    let mut encode = m.encode();
    // The first byte of the account text follows valid_till (8) and the
    // length prefix (4). A quote can never appear in an identifier.
    encode[12] = b'"';
    assert_eq!(
        TransferMessage::decode(&encode),
        Err(CodecError::MalformedData(DecodeField::TokenNear))
    );
}

#[test]
fn truncation_names_the_failing_field() {
    // For the sample message the field offsets are: valid_till ends at 8,
    // token_near (4 + 10) at 22, token_eth at 42, amount at 58, fee token
    // (4 + 10) at 72, fee amount at 88, recipient at 108.
    let m = sample_message(None);
    let encode = m.encode();
    let cases: Vec<(usize, DecodeField)> = vec![
        (4, DecodeField::ValidTill),
        (15, DecodeField::TokenNear),
        (30, DecodeField::TokenEth),
        (50, DecodeField::Amount),
        (60, DecodeField::FeeToken),
        (80, DecodeField::FeeAmount),
        (100, DecodeField::Recipient),
    ];
    for (cut, field) in cases {
        let t: Vec<u8> = encode[..cut].to_vec();
        assert_eq!(
            TransferMessage::decode(&t),
            Err(CodecError::MalformedData(field))
        );
    }
}

#[test]
fn empty_identifiers_round_trip() {
    let m = TransferMessage {
        valid_till: u64::MAX,
        valid_till_block_height: None,
        transfer: TransferDataEthereum {
            token_near: String::new(),
            token_eth: EthAddress(vec![0xffu8; 20]),
            amount: u128::MAX,
        },
        fee: TransferDataNear {
            token: String::new(),
            amount: 0,
        },
        recipient: EthAddress(vec![1u8; 20]),
        aurora_sender: None,
    };
    let encode = m.encode();
    assert_eq!(TransferMessage::decode(&encode).unwrap(), m);
}

#[test]
fn decode_of_empty_stream_fails_at_first_field() {
    assert_eq!(
        TransferMessage::decode(&Vec::new()),
        Err(CodecError::MalformedData(DecodeField::ValidTill))
    );
}
