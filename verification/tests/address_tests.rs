use bridge_codec::error::CodecError;
use bridge_codec::eth_address::{get_eth_address, EthAddress};

#[test]
fn parse_hex_accepts_both_cases_and_prefix() {
    let a = EthAddress::parse_hex("0x71C7656EC7ab88b098defB751B7401B5f6d8976F").unwrap();
    let b = EthAddress::parse_hex("71c7656ec7ab88b098defb751b7401b5f6d8976f").unwrap();
    assert_eq!(a, b);
    assert_eq!(a.to_hex(), "71c7656ec7ab88b098defb751b7401b5f6d8976f".to_string());
}

#[test]
fn parse_hex_wrong_length_fails() {
    assert_eq!(
        EthAddress::parse_hex("0x71c765"),
        Err(CodecError::InvalidLength)
    );
    assert_eq!(
        EthAddress::parse_hex("71c7656ec7ab88b098defb751b7401b5f6d8976f00"),
        Err(CodecError::InvalidLength)
    );
    // An odd digit count is not even decodable hex.
    assert_eq!(
        EthAddress::parse_hex("71c7656ec7ab88b098defb751b7401b5f6d8976"),
        Err(CodecError::InvalidEncoding)
    );
}

#[test]
fn parse_hex_bad_digits_fail() {
    assert_eq!(
        EthAddress::parse_hex("zz c7656ec7ab88b098defb751b7401b5f6d8976f"),
        Err(CodecError::InvalidEncoding)
    );
    assert_eq!(EthAddress::parse_hex(""), Err(CodecError::InvalidLength));
    assert_eq!(
        EthAddress::parse_hex("0x"),
        Err(CodecError::InvalidLength)
    );
}

#[test]
fn from_bytes_demands_twenty() {
    let twenty = vec![0xabu8; 20];
    let a = EthAddress::from_bytes(twenty.clone()).unwrap();
    assert_eq!(a.0, twenty);
    assert_eq!(
        EthAddress::from_bytes(vec![0xabu8; 19]),
        Err(CodecError::InvalidLength)
    );
    assert_eq!(
        EthAddress::from_bytes(vec![0xabu8; 21]),
        Err(CodecError::InvalidLength)
    );
}

#[test]
fn bytes_to_hex_and_back() {
    let bytes: Vec<u8> = (0..20u8).map(|i| i.wrapping_mul(13)).collect();
    let a = EthAddress::from_bytes(bytes.clone()).unwrap();
    let text = a.to_hex();
    assert_eq!(text.len(), 40);
    let b = EthAddress::parse_hex(&text).unwrap();
    assert_eq!(b.0, bytes);
}

#[test]
fn get_eth_address_decodes() {
    let a = get_eth_address("71C7656EC7ab88b098defB751B7401B5f6d8976F".to_string());
    assert_eq!(a.0[0], 0x71);
    assert_eq!(a.0[19], 0x6f);
    assert_eq!(a.to_hex(), "71c7656ec7ab88b098defb751b7401b5f6d8976f");
}

#[test]
fn get_eth_address_strips_the_marker() {
    let a = get_eth_address("0x71C7656EC7ab88b098defB751B7401B5f6d8976F".to_string());
    let b = get_eth_address("71c7656ec7ab88b098defb751b7401b5f6d8976f".to_string());
    assert_eq!(a, b);
}
