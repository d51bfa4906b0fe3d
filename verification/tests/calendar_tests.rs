use mru_decode::calendar::{ticks_to_datetime, CalendarDateTime};
use mru_decode::error::DecodeError;

fn dt(year: u16, month: u16, day: u16, hour: u16, minute: u16, second: u16) -> CalendarDateTime {
    CalendarDateTime { year, month, day, hour, minute, second }
}

#[test]
fn ticks_zero_is_epoch() {
    assert_eq!(ticks_to_datetime(0), Ok(dt(1601, 1, 1, 0, 0, 0)));
}

#[test]
fn ticks_one_second() {
    assert_eq!(ticks_to_datetime(10_000_000), Ok(dt(1601, 1, 1, 0, 0, 1)));
}

#[test]
fn ticks_subsecond_truncates() {
    assert_eq!(ticks_to_datetime(19_999_999), Ok(dt(1601, 1, 1, 0, 0, 1)));
}

#[test]
fn ticks_modern_date() {
    assert_eq!(
        ticks_to_datetime(133_338_834_450_000_000),
        Ok(dt(2023, 7, 15, 8, 30, 45))
    );
}

#[test]
fn ticks_leap_day() {
    assert_eq!(
        ticks_to_datetime(125_963_423_990_000_000),
        Ok(dt(2000, 2, 29, 23, 59, 59))
    );
}

#[test]
fn ticks_largest_in_range() {
    assert_eq!(
        ticks_to_datetime(184_467_440_737_095_516),
        Ok(dt(2185, 7, 21, 23, 34, 33))
    );
}

#[test]
fn ticks_overflow_is_range_error() {
    assert_eq!(ticks_to_datetime(u64::MAX), Err(DecodeError::RangeError));
    assert_eq!(
        ticks_to_datetime(184_467_440_737_095_517),
        Err(DecodeError::RangeError)
    );
}

#[test]
fn ticks_order_keeps_calendar_order() {
    let samples: [u64; 5] = [
        0,
        10_000_000,
        864_000_000_000,
        125_963_423_990_000_000,
        133_338_834_450_000_000,
    ];
    let mut previous = ticks_to_datetime(samples[0]).unwrap();
    for t in samples.iter().skip(1) {
        let current = ticks_to_datetime(*t).unwrap();
        let p = (
            previous.year,
            previous.month,
            previous.day,
            previous.hour,
            previous.minute,
            previous.second,
        );
        let c = (
            current.year,
            current.month,
            current.day,
            current.hour,
            current.minute,
            current.second,
        );
        assert!(p <= c);
        previous = current;
    }
}

#[test]
fn display_epoch() {
    let e = dt(1601, 1, 1, 0, 0, 0);
    assert_eq!(e.display_string(), "1601-01-01 00:00:00");
}

#[test]
fn display_modern_date() {
    let d = ticks_to_datetime(133_338_834_450_000_000).unwrap();
    assert_eq!(d.display_string(), "2023-07-15 08:30:45");
}
