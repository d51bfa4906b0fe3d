//! Validation of the opaque item-identifier envelope carried by
//! save/open-dialog records. The engine never interprets the
//! identifier's internal structure; it only checks the byte envelope
//! and hands it on for external resolution.

use vstd::prelude::*;

use crate::error::DecodeError;

verus! {

/// A verbatim copy of a byte vector.
pub(crate) fn copy_bytes(v: &Vec<u8>) -> (r: Vec<u8>)
    ensures
        r@ == v@,
{
    let mut out: Vec<u8> = Vec::new();
    let mut i: usize = 0;
    while i < v.len()
        invariant
            i <= v@.len(),
            out@ =~= v@.take(i as int),
        decreases v@.len() - i,
    {
        out.push(v[i]);
        proof {
            assert(out@ =~= v@.take(i as int + 1));
        }
        i = i + 1;
    }
    proof {
        assert(v@.take(v@.len() as int) =~= v@);
    }
    out
}

/// Validates the envelope of an opaque item identifier and copies it
/// verbatim. The record must be non-empty; an empty one can never be
/// resolved and is surfaced as `IdentifierUnresolved` carrying the raw
/// bytes, so that siblings keep being processed.
pub fn read_envelope(raw: &Vec<u8>) -> (r: Result<Vec<u8>, DecodeError>)
    ensures
        r is Ok <==> raw@.len() > 0,
        r matches Ok(v) ==> v@ == raw@,
        r matches Err(e) ==> (e matches DecodeError::IdentifierUnresolved(b) && b@ == raw@),
{
    if raw.len() == 0 {
        Err(DecodeError::IdentifierUnresolved(copy_bytes(raw)))
    } else {
        Ok(copy_bytes(raw))
    }
}

} // verus!
