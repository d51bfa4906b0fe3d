use mru_decode::error::DecodeError;
use mru_decode::order::decode_order;

fn le_bytes(values: &[u32]) -> Vec<u8> {
    let mut out = Vec::new();
    for v in values {
        out.extend_from_slice(&v.to_le_bytes());
    }
    out
}

#[test]
fn decode_order_drops_sentinel() {
    let raw = le_bytes(&[2, 0, 0xFFFF_FFFF]);
    assert_eq!(decode_order(&raw), Ok(vec![2, 0]));
}

#[test]
fn decode_order_keeps_decode_order() {
    let raw = le_bytes(&[3, 1, 2, 0xFFFF_FFFF]);
    assert_eq!(decode_order(&raw), Ok(vec![3, 1, 2]));
}

#[test]
fn decode_order_drops_sentinel_in_the_middle() {
    let raw = le_bytes(&[1, 0xFFFF_FFFF, 2]);
    assert_eq!(decode_order(&raw), Ok(vec![1, 2]));
}

#[test]
fn decode_order_empty_blob() {
    let raw: Vec<u8> = Vec::new();
    assert_eq!(decode_order(&raw), Ok(Vec::new()));
}

#[test]
fn decode_order_rejects_ragged_length() {
    let raw = vec![1u8, 0, 0, 0, 9];
    assert_eq!(decode_order(&raw), Err(DecodeError::MalformedOrderList));
}

#[test]
fn error_labels() {
    assert_eq!(DecodeError::MalformedOrderList.label(), "malformed order list");
    assert_eq!(DecodeError::InvalidStringRecord.label(), "invalid string record");
    assert_eq!(
        DecodeError::UnrecognizedRecordFormat.label(),
        "unrecognized record format"
    );
    assert_eq!(DecodeError::RangeError.label(), "timestamp out of range");
    assert_eq!(
        DecodeError::IdentifierUnresolved(vec![1]).label(),
        "identifier unresolved"
    );
}

#[test]
fn decode_order_large_little_endian_group() {
    let raw = vec![0xEFu8, 0xBE, 0xAD, 0xDE];
    assert_eq!(decode_order(&raw), Ok(vec![0xDEAD_BEEF]));
}
