use vanity_search::hexcode::{hex_decode, hex_encode};

#[test]
fn encode_known_bytes() {
    assert_eq!(hex_encode(&[0x00u8, 0xff, 0x10, 0xab]), "00ff10ab");
    assert_eq!(hex_encode(&[]), "");
    assert_eq!(hex_encode(&[0x0f]), "0f");
}

#[test]
fn decode_known_strings() {
    assert_eq!(hex_decode("00ff10ab"), Some(vec![0x00u8, 0xff, 0x10, 0xab]));
    assert_eq!(hex_decode(""), Some(vec![]));
    assert_eq!(hex_decode("ABCD"), Some(vec![0xabu8, 0xcd]));
}

#[test]
fn decode_rejects_odd_length() {
    assert_eq!(hex_decode("abc"), None);
    assert_eq!(hex_decode("0"), None);
}

#[test]
fn decode_rejects_non_digits() {
    assert_eq!(hex_decode("0g"), None);
    assert_eq!(hex_decode("zz"), None);
    assert_eq!(hex_decode("00:0"), None);
}

#[test]
fn round_trip() {
    let bytes: Vec<u8> = (0u16..=255).map(|b| b as u8).collect();
    let encoded = hex_encode(&bytes);
    assert_eq!(encoded.len(), 512);
    assert_eq!(hex_decode(&encoded), Some(bytes));
}
