use sodix::errors::CryptoError;
use sodix::hexcodec::{hex_decode, hex_encode, trim_ascii};

#[test]
fn hex_encode_concrete() {
    let bytes: Vec<u8> = vec![0x00, 0x01, 0x0a, 0xff];
    assert_eq!(hex_encode(&bytes), b"00010aff".to_vec());
}

#[test]
fn hex_encode_empty() {
    let bytes: Vec<u8> = Vec::new();
    assert_eq!(hex_encode(&bytes), Vec::<u8>::new());
}

#[test]
fn hex_encode_is_lowercase() {
    let bytes: Vec<u8> = vec![0xab, 0xcd, 0xef];
    assert_eq!(hex_encode(&bytes), b"abcdef".to_vec());
}

#[test]
fn hex_decode_concrete() {
    assert_eq!(hex_decode(b"00010aff").unwrap(), vec![0x00, 0x01, 0x0a, 0xff]);
}

#[test]
fn hex_decode_accepts_uppercase() {
    assert_eq!(hex_decode(b"0A1B").unwrap(), vec![0x0a, 0x1b]);
    assert_eq!(hex_decode(b"DEADbeef").unwrap(), vec![0xde, 0xad, 0xbe, 0xef]);
}

#[test]
fn hex_decode_odd_length_rejected() {
    assert_eq!(hex_decode(b"abc"), Err(CryptoError::InvalidHexEncoding));
}

#[test]
fn hex_decode_bad_digit_rejected() {
    assert_eq!(hex_decode(b"zz"), Err(CryptoError::InvalidHexEncoding));
    assert_eq!(hex_decode(b"0g"), Err(CryptoError::InvalidHexEncoding));
}

#[test]
fn hex_round_trip_various() {
    let samples: Vec<Vec<u8>> = vec![
        Vec::new(),
        vec![0x00],
        vec![0xff; 64],
        (0u8..=255).collect(),
    ];
    for bytes in samples {
        assert_eq!(hex_decode(&hex_encode(&bytes)).unwrap(), bytes);
    }
}

#[test]
fn hex_encode_matches_reference_crate() {
    let bytes: Vec<u8> = (0u8..=255).collect();
    assert_eq!(hex_encode(&bytes), hex::encode(&bytes).into_bytes());
}

#[test]
fn hex_decode_matches_reference_crate() {
    let text = b"00ff10abCDef";
    assert_eq!(hex_decode(text).unwrap(), hex::decode(text).unwrap());
}

#[test]
fn trim_ascii_strips_surrounding_whitespace() {
    assert_eq!(trim_ascii(b"  ab\n\r\t"), b"ab".to_vec());
    assert_eq!(trim_ascii(b"abc"), b"abc".to_vec());
    assert_eq!(trim_ascii(b" \n\t\r "), Vec::<u8>::new());
    assert_eq!(trim_ascii(b"a b"), b"a b".to_vec());
}
