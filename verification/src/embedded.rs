//! Extractor for the timestamp and location embedded in one printable
//! record string (office MRU values): the sixteen characters after the
//! first `T` are a hexadecimal 64-bit tick count, and the text after
//! the first `*`, up to but excluding the final character, is the
//! location.

use vstd::prelude::*;

use crate::calendar::{is_datetime_of_ticks, ticks_to_datetime, CalendarDateTime};
use crate::error::DecodeError;
use crate::scan::{all_hex, find_char, first_char_from, hex_value, parse_hex_at};

verus! {

/// Position of the first `T`; `s.len()` when absent.
pub open spec fn tick_mark(s: Seq<char>) -> int {
    first_char_from(s, 0, 'T')
}

/// Position of the first `*`; `s.len()` when absent.
pub open spec fn star_mark(s: Seq<char>) -> int {
    first_char_from(s, 0, '*')
}

/// A record is well-formed when the `T` is present with sixteen hex
/// digits after it, and the `*` is present before the final character.
pub open spec fn embed_ok(s: Seq<char>) -> bool {
    &&& tick_mark(s) < s.len()
    &&& tick_mark(s) + 17 <= s.len()
    &&& all_hex(s.subrange(tick_mark(s) + 1, tick_mark(s) + 17))
    &&& star_mark(s) + 1 < s.len()
}

/// The tick count a well-formed record embeds.
pub open spec fn embed_ticks(s: Seq<char>) -> int {
    hex_value(s.subrange(tick_mark(s) + 1, tick_mark(s) + 17))
}

/// The location a well-formed record embeds: everything after the
/// first `*` up to, but excluding, the final character.
pub open spec fn embed_location(s: Seq<char>) -> Seq<char> {
    s.subrange(star_mark(s) + 1, s.len() - 1)
}

/// Extracts the embedded timestamp and location of one printable
/// record. A missing delimiter, a short record or a non-hex digit is
/// `UnrecognizedRecordFormat`; a tick count too large to convert is
/// `RangeError`.
pub fn extract_timestamped_location(value_text: &str) -> (r: Result<
    (CalendarDateTime, String),
    DecodeError,
>)
    ensures
        r is Ok <==> embed_ok(value_text@) && embed_ticks(value_text@) <= u64::MAX / 100,
        r matches Ok(p) ==> is_datetime_of_ticks(embed_ticks(value_text@) as u64, p.0) && p.1@
            == embed_location(value_text@),
        !embed_ok(value_text@) ==> r == Err::<(CalendarDateTime, String), DecodeError>(
            DecodeError::UnrecognizedRecordFormat,
        ),
        embed_ok(value_text@) && embed_ticks(value_text@) > u64::MAX / 100 ==> r == Err::<
            (CalendarDateTime, String),
            DecodeError,
        >(DecodeError::RangeError),
{
    let n = value_text.unicode_len();
    let t = match find_char(value_text, 'T', 0) {
        Some(i) => i,
        None => {
            return Err(DecodeError::UnrecognizedRecordFormat);
        },
    };
    if n - t < 17 {
        return Err(DecodeError::UnrecognizedRecordFormat);
    }
    let ticks = match parse_hex_at(value_text, t + 1, 16) {
        Some(v) => v,
        None => {
            return Err(DecodeError::UnrecognizedRecordFormat);
        },
    };
    let star = match find_char(value_text, '*', 0) {
        Some(i) => i,
        None => {
            return Err(DecodeError::UnrecognizedRecordFormat);
        },
    };
    if star + 1 >= n {
        return Err(DecodeError::UnrecognizedRecordFormat);
    }
    let location = value_text.substring_char(star + 1, n - 1).to_owned();
    match ticks_to_datetime(ticks) {
        Ok(dt) => Ok((dt, location)),
        Err(_) => Err(DecodeError::RangeError),
    }
}

} // verus!
