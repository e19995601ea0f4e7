use blobman::digest::{bytes_to_hex, hex_to_bytes, DigestData};
use blobman::errors::Error;

#[test]
fn hex_encoding_of_bytes() {
    assert_eq!(bytes_to_hex(&[]), "");
    assert_eq!(bytes_to_hex(&[0x00]), "00");
    assert_eq!(bytes_to_hex(&[0xbe, 0xef]), "beef");
    assert_eq!(bytes_to_hex(&[0x01, 0x23, 0x45, 0x67, 0x89, 0xab, 0xcd, 0xef]), "0123456789abcdef");
}

#[test]
fn hex_decoding_reads_back_bytes() {
    let v = hex_to_bytes("beef", 2).unwrap();
    assert_eq!(v, vec![0xbe, 0xef]);
    let v = hex_to_bytes("0123456789abcdef", 8).unwrap();
    assert_eq!(v, vec![0x01, 0x23, 0x45, 0x67, 0x89, 0xab, 0xcd, 0xef]);
    // uppercase digits decode too, as a convenience
    let v = hex_to_bytes("BEEF", 2).unwrap();
    assert_eq!(v, vec![0xbe, 0xef]);
}

#[test]
fn hex_decoding_rejects_wrong_length() {
    match hex_to_bytes("abc", 2) {
        Err(Error::BadLength { expected, actual }) => {
            assert_eq!(expected, 4);
            assert_eq!(actual, 3);
        }
        other => panic!("expected a length mismatch, got {:?}", other),
    }
    match hex_to_bytes("", 1) {
        Err(Error::BadLength { expected, actual }) => {
            assert_eq!(expected, 2);
            assert_eq!(actual, 0);
        }
        other => panic!("expected a length mismatch, got {:?}", other),
    }
}

#[test]
fn hex_decoding_rejects_non_hex_characters() {
    assert_eq!(hex_to_bytes("zz", 1), Err(Error::BadHexDigit));
    assert_eq!(hex_to_bytes("0g", 1), Err(Error::BadHexDigit));
}

#[test]
fn hex_round_trips_through_encode_then_decode() {
    let bytes: Vec<u8> = (0u16..=255).map(|b| b as u8).collect();
    let text = bytes_to_hex(&bytes);
    assert_eq!(text.len(), 512);
    let back = hex_to_bytes(&text, 256).unwrap();
    assert_eq!(back, bytes);
}

#[test]
fn digest_round_trips_through_hex_text() {
    let mut raw = [0u8; 32];
    for (i, b) in raw.iter_mut().enumerate() {
        *b = (i * 7 + 3) as u8;
    }
    let d = DigestData::from_bytes(raw);
    let text = d.to_hex();
    assert_eq!(text.len(), 64);
    let back = DigestData::from_hex(&text).unwrap();
    assert_eq!(back, d);
}

#[test]
fn digest_decoding_rejects_wrong_length() {
    match DigestData::from_hex("abcd") {
        Err(Error::BadLength { expected, actual }) => {
            assert_eq!(expected, 64);
            assert_eq!(actual, 4);
        }
        other => panic!("expected a length mismatch, got {:?}", other),
    }
}

#[test]
fn zeros_digest_is_all_zero_bytes() {
    let z = DigestData::zeros();
    assert_eq!(z.as_bytes(), &[0u8; 32]);
    assert_eq!(z.to_hex(), "0".repeat(64));
}

#[test]
fn digest_of_nothing_is_sha256_of_empty_input() {
    let d = DigestData::of_nothing();
    assert_eq!(
        d.to_hex(),
        "e3b0c44298fc1c149afbf4c8996fb92427ae41e4649b934ca495991b7852b855"
    );
}

#[test]
fn digest_equality_follows_the_bytes() {
    let a = DigestData::from_bytes([5u8; 32]);
    let b = DigestData::from_bytes([5u8; 32]);
    let mut other = [5u8; 32];
    other[31] = 6;
    let c = DigestData::from_bytes(other);
    assert!(a.eq_digest(&b));
    assert!(!a.eq_digest(&c));
}

#[test]
fn two_part_names_split_first_byte_from_rest() {
    let mut raw = [0u8; 32];
    raw[0] = 0xab;
    raw[1] = 0x01;
    raw[31] = 0xff;
    let d = DigestData::from_bytes(raw);
    assert_eq!(d.dir_name(), "ab");
    let file = d.file_name();
    assert_eq!(file.len(), 62);
    assert!(file.starts_with("01"));
    assert!(file.ends_with("ff"));
}
