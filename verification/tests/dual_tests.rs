use mru_decode::dual::split_dual;
use mru_decode::envelope::read_envelope;
use mru_decode::error::DecodeError;

fn utf16le(s: &str) -> Vec<u8> {
    let mut out = Vec::new();
    for u in s.encode_utf16() {
        out.extend_from_slice(&u.to_le_bytes());
    }
    out
}

fn dual_blob(primary: &str, padding: &[u16], secondary: &str) -> Vec<u8> {
    let mut out = utf16le(primary);
    out.extend_from_slice(&[0, 0]);
    for u in padding {
        out.extend_from_slice(&u.to_le_bytes());
    }
    out.extend(utf16le(secondary));
    out.extend_from_slice(&[0, 0]);
    out
}

#[test]
fn split_dual_round_trip() {
    let blob = dual_blob("a.txt", &[0x0014, 0x002A], "a.txt.lnk");
    assert_eq!(
        split_dual(&blob),
        Ok(("a.txt".to_owned(), "a.txt.lnk".to_owned()))
    );
}

#[test]
fn split_dual_non_ascii_round_trip() {
    let blob = dual_blob("n\u{00E9}vro\u{1F600}.doc", &[0x0001], "n\u{00E9}vro\u{1F600}.doc.lnk");
    assert_eq!(
        split_dual(&blob),
        Ok((
            "n\u{00E9}vro\u{1F600}.doc".to_owned(),
            "n\u{00E9}vro\u{1F600}.doc.lnk".to_owned()
        ))
    );
}

#[test]
fn split_dual_empty_primary_is_invalid() {
    let blob = dual_blob("", &[], "x");
    assert_eq!(split_dual(&blob), Err(DecodeError::InvalidStringRecord));
}

#[test]
fn split_dual_odd_length_is_invalid() {
    let blob = vec![0x61u8, 0x00, 0x61];
    assert_eq!(split_dual(&blob), Err(DecodeError::InvalidStringRecord));
}

#[test]
fn split_dual_missing_terminator_is_invalid() {
    let blob = utf16le("a.txt");
    assert_eq!(split_dual(&blob), Err(DecodeError::InvalidStringRecord));
}

#[test]
fn split_dual_missing_second_string_is_invalid() {
    // the primary's leading unit never occurs again
    let mut blob = utf16le("abc");
    blob.extend_from_slice(&[0, 0]);
    blob.extend(utf16le("xyz"));
    assert_eq!(split_dual(&blob), Err(DecodeError::InvalidStringRecord));
}

#[test]
fn split_dual_unterminated_second_string_is_invalid() {
    let mut blob = utf16le("abc");
    blob.extend_from_slice(&[0, 0]);
    blob.extend(utf16le("abc.lnk"));
    assert_eq!(split_dual(&blob), Err(DecodeError::InvalidStringRecord));
}

#[test]
fn split_dual_lone_surrogate_is_invalid() {
    // a high surrogate unit with no low one is not UTF-16
    let blob = vec![0x00, 0xD8, 0x00, 0x00, 0x00, 0xD8, 0x00, 0x00];
    assert_eq!(split_dual(&blob), Err(DecodeError::InvalidStringRecord));
}

#[test]
fn read_envelope_copies_bytes() {
    let raw = vec![0x14u8, 0x00, 0x1F, 0x50, 0xE0];
    assert_eq!(read_envelope(&raw), Ok(raw.clone()));
}

#[test]
fn read_envelope_empty_is_unresolved() {
    let raw: Vec<u8> = Vec::new();
    assert_eq!(
        read_envelope(&raw),
        Err(DecodeError::IdentifierUnresolved(Vec::new()))
    );
}
