use mru_decode::assemble::{assemble_records, ArtifactFamily, Container, DecodedPayload};
use mru_decode::calendar::CalendarDateTime;
use mru_decode::error::DecodeError;

fn utf16le(s: &str) -> Vec<u8> {
    let mut out = Vec::new();
    for u in s.encode_utf16() {
        out.extend_from_slice(&u.to_le_bytes());
    }
    out
}

fn order_blob(values: &[u32]) -> Vec<u8> {
    let mut out = Vec::new();
    for v in values {
        out.extend_from_slice(&v.to_le_bytes());
    }
    out
}

fn some_time() -> CalendarDateTime {
    CalendarDateTime { year: 2024, month: 3, day: 9, hour: 21, minute: 5, second: 59 }
}

#[test]
fn search_history_ranked_facts() {
    let container = Container {
        last_write: some_time(),
        values: vec![
            ("0".to_owned(), b"notepad".to_vec()),
            ("MRUListEx".to_owned(), order_blob(&[1, 0, 0xFFFF_FFFF])),
            ("1".to_owned(), b"flag.txt".to_vec()),
        ],
    };
    let facts = assemble_records(&container, ArtifactFamily::SearchHistory);
    assert_eq!(facts.len(), 2);
    assert_eq!(facts[0].raw_name, "0");
    assert_eq!(facts[0].rank, Some(1));
    assert_eq!(facts[0].last_write, some_time());
    assert_eq!(
        facts[0].payload,
        Ok(DecodedPayload::PlainText("notepad".to_owned()))
    );
    assert_eq!(facts[1].raw_name, "1");
    assert_eq!(facts[1].rank, Some(0));
    assert_eq!(
        facts[1].payload,
        Ok(DecodedPayload::PlainText("flag.txt".to_owned()))
    );
}

#[test]
fn unknown_name_gets_unresolved_rank() {
    let container = Container {
        last_write: some_time(),
        values: vec![
            ("MRUListEx".to_owned(), order_blob(&[5, 0xFFFF_FFFF])),
            ("5".to_owned(), b"a".to_vec()),
            ("7".to_owned(), b"b".to_vec()),
            ("note".to_owned(), b"c".to_vec()),
        ],
    };
    let facts = assemble_records(&container, ArtifactFamily::SearchHistory);
    assert_eq!(facts.len(), 3);
    assert_eq!(facts[0].rank, Some(0));
    assert_eq!(facts[1].rank, None);
    assert_eq!(facts[2].rank, None);
}

#[test]
fn absent_order_list_gives_all_unresolved() {
    let container = Container {
        last_write: some_time(),
        values: vec![
            ("0".to_owned(), b"first".to_vec()),
            ("1".to_owned(), b"second".to_vec()),
        ],
    };
    let facts = assemble_records(&container, ArtifactFamily::SearchHistory);
    assert_eq!(facts.len(), 2);
    assert_eq!(facts[0].rank, None);
    assert_eq!(facts[1].rank, None);
    assert_eq!(
        facts[0].payload,
        Ok(DecodedPayload::PlainText("first".to_owned()))
    );
    assert_eq!(
        facts[1].payload,
        Ok(DecodedPayload::PlainText("second".to_owned()))
    );
}

#[test]
fn malformed_order_list_surfaces_marker() {
    let container = Container {
        last_write: some_time(),
        values: vec![
            ("MRUListEx".to_owned(), vec![1, 2, 3]),
            ("0".to_owned(), b"hi".to_vec()),
        ],
    };
    let facts = assemble_records(&container, ArtifactFamily::SearchHistory);
    assert_eq!(facts.len(), 2);
    assert_eq!(facts[0].raw_name, "MRUListEx");
    assert_eq!(facts[0].rank, None);
    assert_eq!(facts[0].payload, Err(DecodeError::MalformedOrderList));
    assert_eq!(facts[1].raw_name, "0");
    assert_eq!(facts[1].rank, None);
    assert_eq!(
        facts[1].payload,
        Ok(DecodedPayload::PlainText("hi".to_owned()))
    );
}

#[test]
fn invalid_text_payload_is_record_scoped() {
    let container = Container {
        last_write: some_time(),
        values: vec![
            ("0".to_owned(), vec![0xFF, 0xFE, 0xFF]),
            ("1".to_owned(), b"ok".to_vec()),
        ],
    };
    let facts = assemble_records(&container, ArtifactFamily::SearchHistory);
    assert_eq!(facts.len(), 2);
    assert_eq!(facts[0].payload, Err(DecodeError::InvalidStringRecord));
    assert_eq!(facts[1].payload, Ok(DecodedPayload::PlainText("ok".to_owned())));
}

#[test]
fn recent_docs_dual_filenames() {
    let mut blob = utf16le("report.docx");
    blob.extend_from_slice(&[0, 0]);
    blob.extend_from_slice(&[0x02, 0x00]);
    blob.extend(utf16le("report.docx.lnk"));
    blob.extend_from_slice(&[0, 0]);
    let container = Container {
        last_write: some_time(),
        values: vec![
            ("MRUListEx".to_owned(), order_blob(&[0, 0xFFFF_FFFF])),
            ("0".to_owned(), blob),
        ],
    };
    let facts = assemble_records(&container, ArtifactFamily::RecentDocs);
    assert_eq!(facts.len(), 1);
    assert_eq!(facts[0].rank, Some(0));
    assert_eq!(
        facts[0].payload,
        Ok(DecodedPayload::DualFilename {
            primary: "report.docx".to_owned(),
            secondary: "report.docx.lnk".to_owned(),
        })
    );
}

#[test]
fn save_open_dialog_envelopes() {
    let container = Container {
        last_write: some_time(),
        values: vec![
            ("0".to_owned(), vec![0x14, 0x00, 0x1F]),
            ("1".to_owned(), Vec::new()),
        ],
    };
    let facts = assemble_records(&container, ArtifactFamily::SaveOpenDialog);
    assert_eq!(facts.len(), 2);
    assert_eq!(
        facts[0].payload,
        Ok(DecodedPayload::ItemIdentifierRef(vec![0x14, 0x00, 0x1F]))
    );
    assert_eq!(
        facts[1].payload,
        Err(DecodeError::IdentifierUnresolved(Vec::new()))
    );
}

#[test]
fn office_mru_timestamped_location() {
    let mut value = utf16le("[F00000000][T0123456789ABCDEF][O00000000]*C:\\Users\\x*");
    value.extend_from_slice(&[0, 0]);
    let container = Container {
        last_write: some_time(),
        values: vec![
            ("Item 1".to_owned(), value),
            ("FOLDERID_Documents".to_owned(), utf16le("skip me")),
        ],
    };
    let facts = assemble_records(&container, ArtifactFamily::OfficeMru);
    assert_eq!(facts.len(), 1);
    assert_eq!(facts[0].raw_name, "Item 1");
    assert_eq!(facts[0].rank, None);
    assert_eq!(
        facts[0].payload,
        Ok(DecodedPayload::TimestampedLocation {
            when: CalendarDateTime {
                year: 1860,
                month: 10,
                day: 20,
                hour: 15,
                minute: 48,
                second: 41,
            },
            location: "C:\\Users\\x".to_owned(),
        })
    );
}

#[test]
fn office_mru_unrecognized_record() {
    let container = Container {
        last_write: some_time(),
        values: vec![("Item 1".to_owned(), utf16le("no delimiters here"))],
    };
    let facts = assemble_records(&container, ArtifactFamily::OfficeMru);
    assert_eq!(facts.len(), 1);
    assert_eq!(facts[0].payload, Err(DecodeError::UnrecognizedRecordFormat));
}

#[test]
fn office_mru_odd_bytes_invalid() {
    let container = Container {
        last_write: some_time(),
        values: vec![("Item 1".to_owned(), vec![0x41])],
    };
    let facts = assemble_records(&container, ArtifactFamily::OfficeMru);
    assert_eq!(facts.len(), 1);
    assert_eq!(facts[0].payload, Err(DecodeError::InvalidStringRecord));
}

#[test]
fn empty_container_yields_no_facts() {
    let container = Container { last_write: some_time(), values: Vec::new() };
    let facts = assemble_records(&container, ArtifactFamily::SearchHistory);
    assert_eq!(facts.len(), 0);
}
