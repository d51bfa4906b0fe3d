//! Decoding engine for the binary micro-formats found in a user's
//! "most recently used" registry values: a sentinel-terminated recency
//! order list, dual-encoded filename records, 64-bit tick counts since
//! 1601-01-01, tick counts embedded in printable strings, and opaque
//! item-identifier envelopes. Reading the registry, resolving item
//! identifiers and printing reports are a host concern; this crate only
//! turns named byte blobs into structured facts.

pub mod assemble;
pub mod calendar;
pub mod dual;
pub mod embedded;
pub mod envelope;
pub mod error;
pub mod order;
pub mod scan;
pub mod textcodec;
