use vstd::prelude::*;

verus! {

/// The ways a single registry value can fail to decode. Every failure is
/// scoped to the one record it came from: the record assembler reports it
/// as a marker fact and goes on with the container's remaining values.
#[derive(Debug, Clone, PartialEq, Eq)]
pub enum DecodeError {
    /// The order-list blob's length is not a multiple of four bytes.
    MalformedOrderList,
    /// A textual payload could not be decoded as text, or the dual-string
    /// record's terminators or duplicated leading unit could not be found.
    InvalidStringRecord,
    /// The printable record is missing its `T` or `*` delimiter, too short
    /// to hold the sixteen hex digits, or the hex field does not parse.
    UnrecognizedRecordFormat,
    /// Tick arithmetic overflowed the supported date range.
    RangeError,
    /// The opaque item-identifier envelope could not be handed on for
    /// resolution; the raw bytes are carried along for reporting.
    IdentifierUnresolved(Vec<u8>),
}

impl DecodeError {
    /// A short display name for the error, for report lines.
    pub fn label(&self) -> (r: &'static str)
        ensures
            r@ == label_spec(*self),
    {
        match self {
            DecodeError::MalformedOrderList => "malformed order list",
            DecodeError::InvalidStringRecord => "invalid string record",
            DecodeError::UnrecognizedRecordFormat => "unrecognized record format",
            DecodeError::RangeError => "timestamp out of range",
            DecodeError::IdentifierUnresolved(_) => "identifier unresolved",
        }
    }
}

/// What `label` returns for each variant.
pub open spec fn label_spec(e: DecodeError) -> Seq<char> {
    match e {
        DecodeError::MalformedOrderList => "malformed order list"@,
        DecodeError::InvalidStringRecord => "invalid string record"@,
        DecodeError::UnrecognizedRecordFormat => "unrecognized record format"@,
        DecodeError::RangeError => "timestamp out of range"@,
        DecodeError::IdentifierUnresolved(_) => "identifier unresolved"@,
    }
}

} // verus!
