//! Conversion of 64-bit tick counts (100-nanosecond units since
//! 1601-01-01T00:00:00) to calendar date/times, with integer arithmetic
//! exact to the second.

use vstd::prelude::*;

use crate::error::DecodeError;

verus! {

/// A calendar date and time to whole-second precision, in the proleptic
/// Gregorian calendar, with no time zone.
#[derive(Debug, Clone, Copy, PartialEq, Eq, Structural)]
pub struct CalendarDateTime {
    pub year: u16,
    pub month: u16,
    pub day: u16,
    pub hour: u16,
    pub minute: u16,
    pub second: u16,
}

/// The year of the fixed epoch 1601-01-01T00:00:00.
pub const EPOCH_YEAR: u16 = 1601;

pub open spec fn is_leap_year(y: int) -> bool {
    y % 4 == 0 && (y % 100 != 0 || y % 400 == 0)
}

pub open spec fn days_in_year(y: int) -> int {
    if is_leap_year(y) {
        366
    } else {
        365
    }
}

pub open spec fn days_in_month(y: int, m: int) -> int {
    if m == 2 {
        if is_leap_year(y) {
            29
        } else {
            28
        }
    } else if m == 4 || m == 6 || m == 9 || m == 11 {
        30
    } else {
        31
    }
}

/// Whole days from the epoch to the start of year `y`.
pub open spec fn days_before_year(y: int) -> int
    decreases y,
{
    if y <= EPOCH_YEAR {
        0
    } else {
        days_before_year(y - 1) + days_in_year(y - 1)
    }
}

/// Whole days from the start of year `y` to the start of its month `m`.
pub open spec fn days_before_month(y: int, m: int) -> int
    decreases m,
{
    if m <= 1 {
        0
    } else {
        days_before_month(y, m - 1) + days_in_month(y, m - 1)
    }
}

/// A well-formed date/time in the supported range.
pub open spec fn dt_valid(dt: CalendarDateTime) -> bool {
    &&& EPOCH_YEAR <= dt.year
    &&& 1 <= dt.month <= 12
    &&& 1 <= dt.day <= days_in_month(dt.year as int, dt.month as int)
    &&& dt.hour < 24
    &&& dt.minute < 60
    &&& dt.second < 60
}

/// Whole days from the epoch to `dt`'s date.
pub open spec fn day_number(dt: CalendarDateTime) -> int {
    days_before_year(dt.year as int) + days_before_month(dt.year as int, dt.month as int) + (
    dt.day - 1)
}

/// Seconds from midnight to `dt`'s time of day.
pub open spec fn second_of_day(dt: CalendarDateTime) -> int {
    dt.hour * 3600 + dt.minute * 60 + dt.second
}

/// Seconds from the epoch to `dt`.
pub open spec fn epoch_seconds(dt: CalendarDateTime) -> int {
    day_number(dt) * 86400 + second_of_day(dt)
}

/// The whole seconds a tick count denotes: ticks are multiplied by 100
/// to get nanoseconds, then truncated to seconds.
pub open spec fn ticks_seconds(ticks: u64) -> int {
    (ticks * 100) / 1_000_000_000
}

/// `dt` is the calendar date/time of tick count `ticks`: well formed and
/// exactly `ticks_seconds(ticks)` seconds after the epoch.
pub open spec fn is_datetime_of_ticks(ticks: u64, dt: CalendarDateTime) -> bool {
    dt_valid(dt) && epoch_seconds(dt) == ticks_seconds(ticks)
}

/// Lexicographic order on date/times: year first, second last.
pub open spec fn dt_le(a: CalendarDateTime, b: CalendarDateTime) -> bool {
    if a.year != b.year {
        a.year < b.year
    } else if a.month != b.month {
        a.month < b.month
    } else if a.day != b.day {
        a.day < b.day
    } else if a.hour != b.hour {
        a.hour < b.hour
    } else if a.minute != b.minute {
        a.minute < b.minute
    } else {
        a.second <= b.second
    }
}

pub fn leap_year(y: u16) -> (r: bool)
    ensures
        r == is_leap_year(y as int),
{
    y % 4 == 0 && (y % 100 != 0 || y % 400 == 0)
}

pub fn year_days(y: u16) -> (r: u16)
    ensures
        r == days_in_year(y as int),
{
    if leap_year(y) {
        366
    } else {
        365
    }
}

pub fn month_days(y: u16, m: u16) -> (r: u16)
    requires
        1 <= m <= 12,
    ensures
        r == days_in_month(y as int, m as int),
{
    if m == 2 {
        if leap_year(y) {
            29
        } else {
            28
        }
    } else if m == 4 || m == 6 || m == 9 || m == 11 {
        30
    } else {
        31
    }
}

/// `days_before_year` grows by at least 365 per year.
proof fn lemma_days_before_year_lower(y: int)
    requires
        EPOCH_YEAR <= y,
    ensures
        days_before_year(y) >= 365 * (y - EPOCH_YEAR),
    decreases y,
{
    if y > EPOCH_YEAR {
        lemma_days_before_year_lower(y - 1);
    }
}

/// Whole years lie between year starts: the start of `y2` is no earlier
/// than the end of `y1` for `y1 < y2`.
proof fn lemma_days_before_year_order(y1: int, y2: int)
    requires
        EPOCH_YEAR <= y1 < y2,
    ensures
        days_before_year(y1) + days_in_year(y1) <= days_before_year(y2),
    decreases y2,
{
    if y1 + 1 < y2 {
        lemma_days_before_year_order(y1, y2 - 1);
    }
}

/// `days_before_month` is zero at January and grows month by month.
proof fn lemma_days_before_month_order(y: int, m1: int, m2: int)
    requires
        1 <= m1 < m2,
    ensures
        days_before_month(y, m1) + days_in_month(y, m1) <= days_before_month(y, m2),
    decreases m2,
{
    if m1 + 1 < m2 {
        lemma_days_before_month_order(y, m1, m2 - 1);
    }
}

proof fn lemma_days_before_month_nonneg(y: int, m: int)
    requires
        m >= 1,
    ensures
        days_before_month(y, m) >= 0,
    decreases m,
{
    if m > 1 {
        lemma_days_before_month_nonneg(y, m - 1);
    }
}

/// The twelve months exactly fill the year.
proof fn lemma_months_fill_year(y: int)
    ensures
        days_before_month(y, 13) == days_in_year(y),
{
    reveal_with_fuel(days_before_month, 13);
}

/// A valid date falls strictly inside its own year's days.
proof fn lemma_day_of_year_bound(dt: CalendarDateTime)
    requires
        dt_valid(dt),
    ensures
        0 <= days_before_month(dt.year as int, dt.month as int) + (dt.day - 1) < days_in_year(
            dt.year as int,
        ),
{
    let y = dt.year as int;
    let m = dt.month as int;
    lemma_days_before_month_nonneg(y, m);
    lemma_days_before_month_order(y, m, 13);
    lemma_months_fill_year(y);
}

/// A strictly earlier valid date has a strictly smaller day number.
proof fn lemma_day_number_order(a: CalendarDateTime, b: CalendarDateTime)
    requires
        dt_valid(a),
        dt_valid(b),
        a.year < b.year || (a.year == b.year && a.month < b.month) || (a.year == b.year && a.month
            == b.month && a.day < b.day),
    ensures
        day_number(a) < day_number(b),
{
    lemma_day_of_year_bound(a);
    lemma_day_of_year_bound(b);
    if a.year < b.year {
        lemma_days_before_year_order(a.year as int, b.year as int);
    } else if a.month < b.month {
        lemma_days_before_month_order(a.year as int, a.month as int, b.month as int);
    }
}

/// Epoch-second order decides calendar order: of two valid date/times,
/// the one no later in seconds is no later in the calendar.
pub proof fn lemma_epoch_seconds_orders(a: CalendarDateTime, b: CalendarDateTime)
    requires
        dt_valid(a),
        dt_valid(b),
        epoch_seconds(a) <= epoch_seconds(b),
    ensures
        dt_le(a, b),
{
    if !dt_le(a, b) {
        if b.year < a.year || (b.year == a.year && b.month < a.month) || (b.year == a.year
            && b.month == a.month && b.day < a.day) {
            lemma_day_number_order(b, a);
        }
    }
}

/// Converts a 64-bit tick count (100 ns units since the epoch) to a
/// calendar date/time. The ticks are multiplied by 100 to nanoseconds
/// (failing with `RangeError` when that overflows), truncated to whole
/// seconds, and the seconds are added to 1601-01-01T00:00:00.
pub fn ticks_to_datetime(ticks: u64) -> (r: Result<CalendarDateTime, DecodeError>)
    ensures
        r is Ok <==> ticks <= u64::MAX / 100,
        r matches Ok(dt) ==> is_datetime_of_ticks(ticks, dt),
        r is Err ==> r == Err::<CalendarDateTime, DecodeError>(DecodeError::RangeError),
{
    if ticks > u64::MAX / 100 {
        return Err(DecodeError::RangeError);
    }
    proof {
        assert(ticks * 100 <= u64::MAX) by (nonlinear_arith)
            requires
                ticks <= u64::MAX / 100,
        ;
    }
    let nanos: u64 = ticks * 100;
    let secs: u64 = nanos / 1_000_000_000;
    let days: u64 = secs / 86400;
    let tod: u64 = secs % 86400;
    proof {
        assert(secs <= 18_446_744_073u64) by {
            vstd::arithmetic::div_mod::lemma_div_is_ordered(
                nanos as int,
                u64::MAX as int,
                1_000_000_000,
            );
        }
        assert(days <= 213_503u64) by {
            vstd::arithmetic::div_mod::lemma_div_is_ordered(secs as int, 18_446_744_073, 86400);
        }
    }
    let hour: u16 = (tod / 3600) as u16;
    let minute: u16 = ((tod % 3600) / 60) as u16;
    let second: u16 = (tod % 60) as u16;
    proof {
        assert(hour < 24 && minute < 60 && second < 60 && hour * 3600 + minute * 60 + second
            == tod);
    }
    let mut year: u16 = EPOCH_YEAR;
    let mut rem: u64 = days;
    let mut yd: u16 = year_days(year);
    while rem >= yd as u64
        invariant
            EPOCH_YEAR <= year,
            yd == days_in_year(year as int),
            days_before_year(year as int) + rem == days,
            days <= 213_503u64,
        decreases rem,
    {
        proof {
            lemma_days_before_year_lower(year as int + 1);
        }
        rem = rem - yd as u64;
        year = year + 1;
        yd = year_days(year);
    }
    let mut month: u16 = 1;
    let ghost rem_year: u64 = rem;
    let mut md: u16 = month_days(year, month);
    while month < 12 && rem >= md as u64
        invariant
            1 <= month <= 12,
            EPOCH_YEAR <= year,
            md == days_in_month(year as int, month as int),
            days_before_month(year as int, month as int) + rem == rem_year,
            rem_year < days_in_year(year as int),
        decreases 12 - month,
    {
        rem = rem - md as u64;
        month = month + 1;
        md = month_days(year, month);
    }
    proof {
        if month == 12 && rem >= md as u64 {
            lemma_months_fill_year(year as int);
            assert(false);
        }
    }
    let day: u16 = (rem + 1) as u16;
    let dt = CalendarDateTime { year, month, day, hour, minute, second };
    proof {
        assert(day_number(dt) == days);
        assert(second_of_day(dt) == tod);
        assert(epoch_seconds(dt) == secs) by {
            vstd::arithmetic::div_mod::lemma_fundamental_div_mod(secs as int, 86400);
        }
    }
    Ok(dt)
}

/// The digit character for one decimal digit.
pub open spec fn digit_char(d: int) -> char {
    ((d + 48) as u8) as char
}

/// `n` written as two decimal digits, zero padded.
pub open spec fn two_digits(n: int) -> Seq<char> {
    seq![digit_char(n / 10), digit_char(n % 10)]
}

/// `n` written as four decimal digits, zero padded.
pub open spec fn four_digits(n: int) -> Seq<char> {
    seq![digit_char(n / 1000), digit_char((n / 100) % 10), digit_char((n / 10) % 10), digit_char(
        n % 10,
    )]
}

/// The display form of a date/time: `YYYY-MM-DD HH:MM:SS`.
pub open spec fn dt_display(dt: CalendarDateTime) -> Seq<char> {
    four_digits(dt.year as int) + seq!['-'] + two_digits(dt.month as int) + seq!['-'] + two_digits(
        dt.day as int,
    ) + seq![' '] + two_digits(dt.hour as int) + seq![':'] + two_digits(dt.minute as int)
        + seq![':'] + two_digits(dt.second as int)
}

impl CalendarDateTime {
    /// Renders the date/time as `YYYY-MM-DD HH:MM:SS`, zero padded, the
    /// calendar date first and the time of day after one space. Every
    /// date/time the tick conversion yields fits the four year digits
    /// (see `lemma_ticks_datetime_year_bound`).
    pub fn display_string(&self) -> (r: String)
        requires
            self.year <= 9999,
            self.month < 100,
            self.day < 100,
            self.hour < 100,
            self.minute < 100,
            self.second < 100,
        ensures
            r@ == dt_display(*self),
    {
        let mut s = String::new();
        push_four_digits(&mut s, self.year);
        s.push('-');
        push_two_digits(&mut s, self.month);
        s.push('-');
        push_two_digits(&mut s, self.day);
        s.push(' ');
        push_two_digits(&mut s, self.hour);
        s.push(':');
        push_two_digits(&mut s, self.minute);
        s.push(':');
        push_two_digits(&mut s, self.second);
        proof {
            assert(s@ =~= dt_display(*self));
        }
        s
    }
}

/// Appends one decimal digit character.
fn push_digit(s: &mut String, d: u16)
    requires
        d <= 67,
    ensures
        final(s)@ == old(s)@.push(digit_char(d as int)),
{
    let c = (48 + d as u8) as char;
    s.push(c);
}

/// Appends `n` as two decimal digits, zero padded.
fn push_two_digits(s: &mut String, n: u16)
    requires
        n < 100,
    ensures
        final(s)@ == old(s)@ + two_digits(n as int),
{
    push_digit(s, n / 10);
    push_digit(s, n % 10);
    proof {
        assert(s@ =~= old(s)@ + two_digits(n as int));
    }
}

/// Appends `n` as four decimal digits, zero padded.
fn push_four_digits(s: &mut String, n: u16)
    requires
        n <= 9999,
    ensures
        final(s)@ == old(s)@ + four_digits(n as int),
{
    push_digit(s, n / 1000);
    push_digit(s, (n / 100) % 10);
    push_digit(s, (n / 10) % 10);
    push_digit(s, n % 10);
    proof {
        assert(s@ =~= old(s)@ + four_digits(n as int));
    }
}

/// Every date/time the tick conversion can yield fits four year
/// digits, so its display form is never truncated.
pub proof fn lemma_ticks_datetime_year_bound(ticks: u64, dt: CalendarDateTime)
    requires
        ticks <= u64::MAX / 100,
        is_datetime_of_ticks(ticks, dt),
    ensures
        dt.year <= 9999,
{
    if dt.year > 9999 {
        lemma_days_before_year_lower(dt.year as int);
        lemma_day_of_year_bound(dt);
        assert(ticks * 100 <= u64::MAX) by (nonlinear_arith)
            requires
                ticks <= u64::MAX / 100,
        ;
        vstd::arithmetic::div_mod::lemma_div_is_ordered(
            ticks * 100,
            u64::MAX as int,
            1_000_000_000,
        );
        assert(false);
    }
}

/// The conversion is monotonic: of two tick counts in range, the smaller
/// one never denotes the later calendar date/time.
pub proof fn lemma_ticks_to_datetime_monotonic(
    a: u64,
    b: u64,
    da: CalendarDateTime,
    db: CalendarDateTime,
)
    requires
        a <= b,
        is_datetime_of_ticks(a, da),
        is_datetime_of_ticks(b, db),
    ensures
        dt_le(da, db),
{
    vstd::arithmetic::div_mod::lemma_div_is_ordered(a * 100, b * 100, 1_000_000_000);
    lemma_epoch_seconds_orders(da, db);
}

} // verus!
