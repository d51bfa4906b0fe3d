use mru_decode::calendar::CalendarDateTime;
use mru_decode::embedded::extract_timestamped_location;
use mru_decode::error::DecodeError;

#[test]
fn extract_shaped_input() {
    let r = extract_timestamped_location("abcT0123456789ABCDEFdef*C:\\Users\\x*").unwrap();
    assert_eq!(
        r.0,
        CalendarDateTime { year: 1860, month: 10, day: 20, hour: 15, minute: 48, second: 41 }
    );
    assert_eq!(r.1, "C:\\Users\\x");
}

#[test]
fn extract_office_shaped_record() {
    let r =
        extract_timestamped_location("[F00000000][T0123456789ABCDEF][O00000000]*C:\\Users\\x*")
            .unwrap();
    assert_eq!(
        r.0,
        CalendarDateTime { year: 1860, month: 10, day: 20, hour: 15, minute: 48, second: 41 }
    );
    assert_eq!(r.1, "C:\\Users\\x");
}

#[test]
fn extract_zero_ticks() {
    let r = extract_timestamped_location("T0000000000000000*loc|").unwrap();
    assert_eq!(
        r.0,
        CalendarDateTime { year: 1601, month: 1, day: 1, hour: 0, minute: 0, second: 0 }
    );
    assert_eq!(r.1, "loc");
}

#[test]
fn extract_missing_tick_mark() {
    assert_eq!(
        extract_timestamped_location("no tick here*loc*"),
        Err(DecodeError::UnrecognizedRecordFormat)
    );
}

#[test]
fn extract_missing_star() {
    assert_eq!(
        extract_timestamped_location("T0123456789ABCDEF and no location"),
        Err(DecodeError::UnrecognizedRecordFormat)
    );
}

#[test]
fn extract_short_hex_run() {
    assert_eq!(
        extract_timestamped_location("T0123*x*"),
        Err(DecodeError::UnrecognizedRecordFormat)
    );
}

#[test]
fn extract_non_hex_digit() {
    assert_eq!(
        extract_timestamped_location("T0123456789ABCDEG*x*"),
        Err(DecodeError::UnrecognizedRecordFormat)
    );
}

#[test]
fn extract_star_as_final_character_only() {
    assert_eq!(
        extract_timestamped_location("T0123456789ABCDEF*"),
        Err(DecodeError::UnrecognizedRecordFormat)
    );
}

#[test]
fn extract_out_of_range_ticks() {
    assert_eq!(
        extract_timestamped_location("TFFFFFFFFFFFFFFFF*x*"),
        Err(DecodeError::RangeError)
    );
}
