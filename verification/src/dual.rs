//! Splitter for the dual-encoded filename records of recent-document
//! values: one blob holding a UTF-16LE filename, a short binary run,
//! and a second UTF-16LE string repeating the name (typically with a
//! shortcut suffix).
//!
//! The layout has no length prefix for the first string, so the second
//! one is located by re-finding the first string's leading code unit —
//! a heuristic kept as-is for output compatibility, fragile when that
//! unit also occurs inside the binary run.

use vstd::prelude::*;

use crate::error::DecodeError;
use crate::textcodec::{bytes_to_units, units_of, utf16_chars, utf16_to_string, utf16_valid};

verus! {

/// The first position at or after `from` where `s` holds `v`;
/// `s.len()` when there is none.
pub open spec fn first_unit_from(s: Seq<u16>, from: int, v: u16) -> int
    recommends
        0 <= from <= s.len(),
    decreases s.len() - from,
{
    if from < 0 || from >= s.len() {
        s.len() as int
    } else if s[from] == v {
        from
    } else {
        first_unit_from(s, from + 1, v)
    }
}

/// Where the primary string ends: the first zero code unit.
pub open spec fn primary_end(units: Seq<u16>) -> int {
    first_unit_from(units, 0, 0)
}

/// Where the secondary string starts: the first re-occurrence, at or
/// after the primary's terminator, of the primary's leading code unit.
pub open spec fn secondary_start(units: Seq<u16>) -> int {
    first_unit_from(units, primary_end(units), units[0])
}

/// Where the secondary string ends: the next zero code unit.
pub open spec fn secondary_end(units: Seq<u16>) -> int {
    first_unit_from(units, secondary_start(units), 0)
}

/// A dual-string record is well-formed when it splits into whole code
/// units, the primary string is non-empty and zero-terminated, the
/// primary's leading unit is found again, that second string is
/// zero-terminated too, and both slices are valid UTF-16.
pub open spec fn dual_ok(b: Seq<u8>) -> bool {
    let units = units_of(b);
    &&& b.len() % 2 == 0
    &&& 0 < primary_end(units) < units.len()
    &&& secondary_start(units) < units.len()
    &&& secondary_end(units) < units.len()
    &&& utf16_valid(units.subrange(0, primary_end(units)))
    &&& utf16_valid(units.subrange(secondary_start(units), secondary_end(units)))
}

/// The primary filename of a well-formed record.
pub open spec fn dual_primary(b: Seq<u8>) -> Seq<char> {
    let units = units_of(b);
    utf16_chars(units.subrange(0, primary_end(units)))
}

/// The secondary filename of a well-formed record.
pub open spec fn dual_secondary(b: Seq<u8>) -> Seq<char> {
    let units = units_of(b);
    utf16_chars(units.subrange(secondary_start(units), secondary_end(units)))
}

/// The first position at or after `from` holding `v`, if any.
fn find_unit(units: &Vec<u16>, from: usize, v: u16) -> (r: Option<usize>)
    requires
        from <= units@.len(),
    ensures
        r matches Some(i) ==> i == first_unit_from(units@, from as int, v) && from <= i
            < units@.len(),
        r is None ==> first_unit_from(units@, from as int, v) == units@.len(),
{
    let n = units.len();
    let mut i = from;
    while i < n
        invariant
            from <= i <= n,
            n == units@.len(),
            first_unit_from(units@, from as int, v) == first_unit_from(units@, i as int, v),
        decreases n - i,
    {
        if units[i] == v {
            return Some(i);
        }
        i = i + 1;
    }
    None
}

/// A verbatim copy of the code units in `[from, to)`.
fn sub_units(units: &Vec<u16>, from: usize, to: usize) -> (r: Vec<u16>)
    requires
        from <= to <= units@.len(),
    ensures
        r@ == units@.subrange(from as int, to as int),
{
    let mut out: Vec<u16> = Vec::new();
    let mut i = from;
    while i < to
        invariant
            from <= i <= to <= units@.len(),
            out@ =~= units@.subrange(from as int, i as int),
        decreases to - i,
    {
        out.push(units[i]);
        proof {
            assert(out@ =~= units@.subrange(from as int, i as int + 1));
        }
        i = i + 1;
    }
    out
}

/// Splits a dual-encoded filename record into its two strings: the
/// code units up to the first zero are the primary; from the next
/// occurrence of the primary's leading unit up to the following zero
/// is the secondary. Both are decoded as UTF-16. Any missing
/// terminator, an empty primary, an odd blob or ill-formed UTF-16 is
/// `InvalidStringRecord`.
pub fn split_dual(raw: &Vec<u8>) -> (r: Result<(String, String), DecodeError>)
    ensures
        r is Ok <==> dual_ok(raw@),
        r matches Ok(p) ==> p.0@ == dual_primary(raw@) && p.1@ == dual_secondary(raw@),
        r is Err ==> r == Err::<(String, String), DecodeError>(DecodeError::InvalidStringRecord),
{
    let units = match bytes_to_units(raw) {
        Some(u) => u,
        None => {
            return Err(DecodeError::InvalidStringRecord);
        },
    };
    let z0 = match find_unit(&units, 0, 0) {
        Some(i) => i,
        None => {
            return Err(DecodeError::InvalidStringRecord);
        },
    };
    if z0 == 0 {
        return Err(DecodeError::InvalidStringRecord);
    }
    let lead = units[0];
    let s_start = match find_unit(&units, z0, lead) {
        Some(i) => i,
        None => {
            return Err(DecodeError::InvalidStringRecord);
        },
    };
    let z1 = match find_unit(&units, s_start, 0) {
        Some(i) => i,
        None => {
            return Err(DecodeError::InvalidStringRecord);
        },
    };
    let primary_units = sub_units(&units, 0, z0);
    let secondary_units = sub_units(&units, s_start, z1);
    let primary = match utf16_to_string(&primary_units) {
        Some(s) => s,
        None => {
            return Err(DecodeError::InvalidStringRecord);
        },
    };
    let secondary = match utf16_to_string(&secondary_units) {
        Some(s) => s,
        None => {
            return Err(DecodeError::InvalidStringRecord);
        },
    };
    Ok((primary, secondary))
}

} // verus!
