//! Text decoding shared by the record decoders: 16-bit little-endian
//! code units, a verified UTF-16 decoder, and a thin bridge to std's
//! UTF-8 decoding.

use vstd::prelude::*;

use vstd::string::StringSliceAdditionalSpecFns;
use vstd::utf8::{decode_utf8, encode_utf8_decode_utf8, is_scalar, valid_utf8};

verus! {

/// Relies on char::from_u32: `Some` exactly on Unicode scalar values
/// (not a surrogate, at most 0x10FFFF), carrying that very value.
pub assume_specification[ char::from_u32 ](v: u32) -> (r: Option<char>)
    ensures
        r is Some <==> is_scalar(v),
        r matches Some(c) ==> c as u32 == v,
;

/// Relies on String::push: appends the one character at the end.
pub assume_specification[ String::push ](s: &mut String, c: char)
    ensures
        final(s)@ == old(s)@.push(c),
;

/// The 16-bit little-endian code units of `b`, pair by pair.
pub open spec fn units_of(b: Seq<u8>) -> Seq<u16> {
    Seq::new((b.len() / 2) as nat, |i: int| (b[2 * i] + b[2 * i + 1] * 0x100) as u16)
}

pub open spec fn is_high_surrogate(u: u16) -> bool {
    0xD800 <= u <= 0xDBFF
}

pub open spec fn is_low_surrogate(u: u16) -> bool {
    0xDC00 <= u <= 0xDFFF
}

pub open spec fn is_surrogate(u: u16) -> bool {
    0xD800 <= u <= 0xDFFF
}

/// The scalar value a surrogate pair encodes.
pub open spec fn pair_scalar(hi: u16, lo: u16) -> u32
    recommends
        is_high_surrogate(hi),
        is_low_surrogate(lo),
{
    (0x10000 + (hi - 0xD800) * 0x400 + (lo - 0xDC00)) as u32
}

/// Whether a code-unit sequence is well-formed UTF-16: every surrogate
/// stands in a high/low pair.
pub open spec fn utf16_valid(s: Seq<u16>) -> bool
    decreases s.len(),
{
    if s.len() == 0 {
        true
    } else if !is_surrogate(s[0]) {
        utf16_valid(s.skip(1))
    } else if is_high_surrogate(s[0]) && s.len() >= 2 && is_low_surrogate(s[1]) {
        utf16_valid(s.skip(2))
    } else {
        false
    }
}

/// The characters a well-formed UTF-16 code-unit sequence encodes.
pub open spec fn utf16_chars(s: Seq<u16>) -> Seq<char>
    recommends
        utf16_valid(s),
    decreases s.len(),
{
    if s.len() == 0 {
        Seq::empty()
    } else if !is_surrogate(s[0]) {
        seq![(s[0] as u32) as char] + utf16_chars(s.skip(1))
    } else if s.len() >= 2 {
        seq![pair_scalar(s[0], s[1]) as char] + utf16_chars(s.skip(2))
    } else {
        Seq::empty()
    }
}

/// Reads a byte blob as 16-bit little-endian code units. The blob must
/// consist of whole pairs.
pub fn bytes_to_units(b: &Vec<u8>) -> (r: Option<Vec<u16>>)
    ensures
        r is Some <==> b@.len() % 2 == 0,
        r matches Some(v) ==> v@ == units_of(b@),
{
    if b.len() % 2 != 0 {
        return None;
    }
    let n = b.len() / 2;
    let mut out: Vec<u16> = Vec::new();
    let mut i: usize = 0;
    while i < n
        invariant
            2 * (n as int) == b@.len(),
            b@.len() <= usize::MAX,
            i <= n,
            out@ =~= units_of(b@).take(i as int),
        decreases n - i,
    {
        let lo = b[2 * i] as u16;
        let hi = b[2 * i + 1] as u16;
        out.push(lo + hi * 0x100);
        proof {
            assert(out@ =~= units_of(b@).take(i as int + 1));
        }
        i = i + 1;
    }
    proof {
        assert(units_of(b@).take(n as int) =~= units_of(b@));
    }
    Some(out)
}

/// Decodes UTF-16 code units to text. `None` exactly when the sequence
/// is not well-formed UTF-16.
pub fn utf16_to_string(units: &Vec<u16>) -> (r: Option<String>)
    ensures
        r is Some <==> utf16_valid(units@),
        r matches Some(s) ==> s@ == utf16_chars(units@),
{
    let n = units.len();
    let mut out = String::new();
    let mut i: usize = 0;
    proof {
        assert(units@.skip(0) =~= units@);
    }
    while i < n
        invariant
            n == units@.len(),
            i <= n,
            utf16_valid(units@) <==> utf16_valid(units@.skip(i as int)),
            utf16_valid(units@.skip(i as int)) ==> utf16_chars(units@) =~= out@ + utf16_chars(
                units@.skip(i as int),
            ),
        decreases n - i,
    {
        let ghost rest = units@.skip(i as int);
        let u = units[i];
        if u < 0xD800 || u > 0xDFFF {
            let c = char::from_u32(u as u32).unwrap();
            out.push(c);
            proof {
                vstd::utf8::char_u32_cast(c, u as u32);
                assert(rest.skip(1) =~= units@.skip(i as int + 1));
                assert(utf16_chars(rest) == seq![c] + utf16_chars(rest.skip(1)));
            }
            i = i + 1;
        } else if u >= 0xDC00 {
            // a low surrogate with no leading high surrogate
            return None;
        } else if i + 1 == n {
            // a high surrogate with nothing after it
            proof {
                assert(!utf16_valid(rest));
            }
            return None;
        } else {
            let u2 = units[i + 1];
            if u2 < 0xDC00 || u2 > 0xDFFF {
                // a high surrogate not followed by a low one
                return None;
            }
            let scalar: u32 = 0x10000 + (u as u32 - 0xD800) * 0x400 + (u2 as u32 - 0xDC00);
            let c = char::from_u32(scalar).unwrap();
            out.push(c);
            proof {
                vstd::utf8::char_u32_cast(c, scalar);
                assert(scalar == pair_scalar(u, u2));
                assert(rest.skip(2) =~= units@.skip(i as int + 2));
                assert(utf16_chars(rest) == seq![c] + utf16_chars(rest.skip(2)));
            }
            i = i + 2;
        }
    }
    proof {
        assert(units@.skip(n as int) =~= Seq::<u16>::empty());
    }
    Some(out)
}

/// Relies on std's str::from_utf8: `Some` exactly on valid UTF-8, and
/// the returned slice holds those very bytes.
#[verifier::external_body]
fn utf8_to_str(bytes: &[u8]) -> (r: Option<&str>)
    ensures
        r is Some <==> valid_utf8(bytes@),
        r matches Some(s) ==> s.spec_bytes() =~= bytes@,
{
    core::str::from_utf8(bytes).ok()
}

/// Decodes a whole byte blob as UTF-8 text. `None` exactly when the
/// bytes are not valid UTF-8.
pub fn utf8_to_string(bytes: &Vec<u8>) -> (r: Option<String>)
    ensures
        r is Some <==> valid_utf8(bytes@),
        r matches Some(s) ==> s@ == decode_utf8(bytes@),
{
    match utf8_to_str(bytes.as_slice()) {
        Some(s) => {
            proof {
                encode_utf8_decode_utf8(s@);
            }
            Some(s.to_owned())
        },
        None => None,
    }
}

/// The code units with every trailing zero removed, as a registry
/// string value carries its terminator.
pub open spec fn trim_zeros(s: Seq<u16>) -> Seq<u16>
    decreases s.len(),
{
    if s.len() > 0 && s.last() == 0 {
        trim_zeros(s.drop_last())
    } else {
        s
    }
}

/// Removes the trailing zero code units.
pub fn trim_trailing_zeros(units: &Vec<u16>) -> (r: Vec<u16>)
    ensures
        r@ == trim_zeros(units@),
{
    let mut end = units.len();
    proof {
        assert(units@.take(units@.len() as int) =~= units@);
    }
    while end > 0 && units[end - 1] == 0
        invariant
            end <= units@.len(),
            trim_zeros(units@) == trim_zeros(units@.take(end as int)),
        decreases end,
    {
        proof {
            assert(units@.take(end as int).drop_last() =~= units@.take(end as int - 1));
        }
        end = end - 1;
    }
    let mut out: Vec<u16> = Vec::new();
    let mut i: usize = 0;
    while i < end
        invariant
            end <= units@.len(),
            i <= end,
            out@ =~= units@.take(end as int).take(i as int),
        decreases end - i,
    {
        out.push(units[i]);
        proof {
            assert(out@ =~= units@.take(end as int).take(i as int + 1));
        }
        i = i + 1;
    }
    proof {
        assert(trim_zeros(units@.take(end as int)) == units@.take(end as int));
        assert(out@ =~= units@.take(end as int));
    }
    out
}

} // verus!
