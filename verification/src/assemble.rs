//! The record assembler: one pass over a container's named values,
//! decoding the order list first and then every remaining value
//! independently, producing one immutable fact per value. A value that
//! fails to decode yields a fact carrying its error; it never stops the
//! container's other values from being processed.

use vstd::prelude::*;

use crate::calendar::{is_datetime_of_ticks, CalendarDateTime};
use crate::dual::{dual_ok, dual_primary, dual_secondary, split_dual};
use crate::embedded::{embed_location, embed_ok, embed_ticks, extract_timestamped_location};
use crate::envelope::read_envelope;
use crate::error::DecodeError;
use crate::order::{decode_order, order_spec};
use crate::scan::{all_dec, contains_str, dec_value, has_substring, parse_u32_decimal};
use crate::textcodec::{
    bytes_to_units, trim_trailing_zeros, trim_zeros, units_of, utf16_chars, utf16_to_string,
    utf16_valid, utf8_to_string,
};
use vstd::utf8::{decode_utf8, valid_utf8};

verus! {

/// The four artifact families, each selecting one payload decoding.
#[derive(Debug, Clone, Copy, PartialEq, Eq, Structural)]
pub enum ArtifactFamily {
    /// Search history: the whole blob is one text value.
    SearchHistory,
    /// Recent documents: a dual-encoded filename record.
    RecentDocs,
    /// Save/open dialogs: an opaque item-identifier envelope.
    SaveOpenDialog,
    /// Office MRU: a printable record with an embedded timestamp.
    OfficeMru,
}

/// One decoded payload, tagged by artifact family.
#[derive(Debug, Clone, PartialEq, Eq)]
pub enum DecodedPayload {
    PlainText(String),
    DualFilename { primary: String, secondary: String },
    ItemIdentifierRef(Vec<u8>),
    TimestampedLocation { when: CalendarDateTime, location: String },
}

/// One decoded artifact entry: constructed once during a container
/// pass, immutable thereafter. `rank` is the value's position in the
/// decoded order list, `None` when its name was not found there. A
/// payload that failed to decode carries its record-scoped error.
#[derive(Debug, PartialEq, Eq)]
pub struct MruFact {
    pub rank: Option<usize>,
    pub raw_name: String,
    pub last_write: CalendarDateTime,
    pub payload: Result<DecodedPayload, DecodeError>,
}

/// A read-only view of one registry location: its last-write time and
/// its named byte values, in enumeration order.
#[derive(Debug)]
pub struct Container {
    pub last_write: CalendarDateTime,
    pub values: Vec<(String, Vec<u8>)>,
}

/// The value name that carries the order list.
pub open spec fn order_list_name() -> Seq<char> {
    "MRUListEx"@
}

/// Names treated as metadata rather than decoded into facts: the order
/// list itself and, for office values, the folder-identifier entries.
pub open spec fn is_metadata_name(name: Seq<char>, family: ArtifactFamily) -> bool {
    name == order_list_name() || ((family is OfficeMru) && has_substring(name, "FOLDERID"@))
}

/// The values of a container that become facts, in enumeration order.
pub open spec fn kept_values(values: Seq<(String, Vec<u8>)>, family: ArtifactFamily) -> Seq<
    (String, Vec<u8>),
> {
    values.filter(|v: (String, Vec<u8>)| !is_metadata_name(v.0@, family))
}

/// The raw bytes of the first value named `MRUListEx`, if any.
pub open spec fn order_raw(values: Seq<(String, Vec<u8>)>) -> Option<Seq<u8>>
    decreases values.len(),
{
    if values.len() == 0 {
        None
    } else if values[0].0@ == order_list_name() {
        Some(values[0].1@)
    } else {
        order_raw(values.drop_first())
    }
}

/// A present but malformed order list (length not a multiple of four).
pub open spec fn order_is_malformed(values: Seq<(String, Vec<u8>)>) -> bool {
    match order_raw(values) {
        Some(b) => b.len() % 4 != 0,
        None => false,
    }
}

/// The container's decoded order list; empty when absent or malformed,
/// so that every rank is then unresolved.
pub open spec fn container_order(values: Seq<(String, Vec<u8>)>) -> Seq<u32> {
    match order_raw(values) {
        Some(b) => if b.len() % 4 == 0 {
            order_spec(b)
        } else {
            Seq::empty()
        },
        None => Seq::empty(),
    }
}

/// The first position of `v` at or after `from` in `order`;
/// `order.len()` when there is none.
pub open spec fn index_of_u32(order: Seq<u32>, v: u32, from: int) -> int
    recommends
        0 <= from <= order.len(),
    decreases order.len() - from,
{
    if from < 0 || from >= order.len() {
        order.len() as int
    } else if order[from] == v {
        from
    } else {
        index_of_u32(order, v, from + 1)
    }
}

/// A value name read as a decimal integer, when it is one.
pub open spec fn name_value(name: Seq<char>) -> Option<u32> {
    if name.len() > 0 && all_dec(name) && dec_value(name) <= u32::MAX {
        Some(dec_value(name) as u32)
    } else {
        None
    }
}

/// The rank of a value: its name parsed as a decimal integer, located
/// in the order list; `None` when the name is no integer or absent.
pub open spec fn rank_of_name(name: Seq<char>, order: Seq<u32>) -> Option<usize> {
    match name_value(name) {
        Some(v) => if index_of_u32(order, v, 0) < order.len() {
            Some(index_of_u32(order, v, 0) as usize)
        } else {
            None
        },
        None => None,
    }
}

/// The office value's text: its bytes as UTF-16LE code units with the
/// trailing terminator removed.
pub open spec fn office_text_ok(bytes: Seq<u8>) -> bool {
    bytes.len() % 2 == 0 && utf16_valid(trim_zeros(units_of(bytes)))
}

pub open spec fn office_text(bytes: Seq<u8>) -> Seq<char> {
    utf16_chars(trim_zeros(units_of(bytes)))
}

/// What the office payload decoding yields for given bytes.
pub open spec fn office_payload_matches(
    p: Result<DecodedPayload, DecodeError>,
    bytes: Seq<u8>,
) -> bool {
    if !office_text_ok(bytes) {
        p == Err::<DecodedPayload, DecodeError>(DecodeError::InvalidStringRecord)
    } else if !embed_ok(office_text(bytes)) {
        p == Err::<DecodedPayload, DecodeError>(DecodeError::UnrecognizedRecordFormat)
    } else if embed_ticks(office_text(bytes)) > u64::MAX / 100 {
        p == Err::<DecodedPayload, DecodeError>(DecodeError::RangeError)
    } else {
        match p {
            Ok(DecodedPayload::TimestampedLocation { when, location }) => is_datetime_of_ticks(
                embed_ticks(office_text(bytes)) as u64,
                when,
            ) && location@ == embed_location(office_text(bytes)),
            _ => false,
        }
    }
}

/// What payload decoding yields for given bytes, per artifact family.
pub open spec fn payload_matches(
    p: Result<DecodedPayload, DecodeError>,
    family: ArtifactFamily,
    bytes: Seq<u8>,
) -> bool {
    match family {
        ArtifactFamily::SearchHistory => match p {
            Ok(DecodedPayload::PlainText(s)) => valid_utf8(bytes) && s@ == decode_utf8(bytes),
            Err(DecodeError::InvalidStringRecord) => !valid_utf8(bytes),
            _ => false,
        },
        ArtifactFamily::RecentDocs => match p {
            Ok(DecodedPayload::DualFilename { primary, secondary }) => dual_ok(bytes) && primary@
                == dual_primary(bytes) && secondary@ == dual_secondary(bytes),
            Err(DecodeError::InvalidStringRecord) => !dual_ok(bytes),
            _ => false,
        },
        ArtifactFamily::SaveOpenDialog => match p {
            Ok(DecodedPayload::ItemIdentifierRef(env)) => bytes.len() > 0 && env@ == bytes,
            Err(DecodeError::IdentifierUnresolved(env)) => bytes.len() == 0 && env@ == bytes,
            _ => false,
        },
        ArtifactFamily::OfficeMru => office_payload_matches(p, bytes),
    }
}

/// One fact is the faithful decoding of one kept value.
pub open spec fn fact_matches(
    f: MruFact,
    name: Seq<char>,
    bytes: Seq<u8>,
    order: Seq<u32>,
    last_write: CalendarDateTime,
    family: ArtifactFamily,
) -> bool {
    &&& f.raw_name@ == name
    &&& f.last_write == last_write
    &&& f.rank == rank_of_name(name, order)
    &&& payload_matches(f.payload, family, bytes)
}

/// The marker fact emitted for a present but malformed order list.
pub open spec fn order_marker_matches(f: MruFact, last_write: CalendarDateTime) -> bool {
    &&& f.raw_name@ == order_list_name()
    &&& f.last_write == last_write
    &&& f.rank is None
    &&& f.payload == Err::<DecodedPayload, DecodeError>(DecodeError::MalformedOrderList)
}

/// With no `"MRUListEx"` value in the container, no marker fact is
/// emitted — every remaining value still yields its fact — and the
/// decoded order is empty, so every rank is unresolved.
pub proof fn lemma_absent_order_all_unresolved(values: Seq<(String, Vec<u8>)>, name: Seq<char>)
    requires
        order_raw(values) is None,
    ensures
        !order_is_malformed(values),
        container_order(values) == Seq::<u32>::empty(),
        rank_of_name(name, container_order(values)) is None,
{
}

/// A present but malformed order list never populates the order even
/// in part: the decoded order is empty and every rank is unresolved.
pub proof fn lemma_malformed_order_all_unresolved(values: Seq<(String, Vec<u8>)>, name: Seq<char>)
    requires
        order_is_malformed(values),
    ensures
        container_order(values) == Seq::<u32>::empty(),
        rank_of_name(name, container_order(values)) is None,
{
}

/// The first position of `v` in `order`, if any.
fn find_u32(order: &Vec<u32>, v: u32) -> (r: Option<usize>)
    ensures
        r matches Some(i) ==> i == index_of_u32(order@, v, 0) && i < order@.len(),
        r is None ==> index_of_u32(order@, v, 0) == order@.len(),
{
    let n = order.len();
    let mut i: usize = 0;
    while i < n
        invariant
            i <= n,
            n == order@.len(),
            index_of_u32(order@, v, 0) == index_of_u32(order@, v, i as int),
        decreases n - i,
    {
        if order[i] == v {
            return Some(i);
        }
        i = i + 1;
    }
    None
}

/// Looks a value's rank up: the name parsed as a decimal integer,
/// found in the decoded order list.
pub fn rank_lookup(name: &String, order: &Vec<u32>) -> (r: Option<usize>)
    ensures
        r == rank_of_name(name@, order@),
{
    match parse_u32_decimal(name.as_str()) {
        Some(v) => find_u32(order, v),
        None => None,
    }
}

/// The index of the first value named `MRUListEx`, if any.
fn find_order_value(values: &Vec<(String, Vec<u8>)>) -> (r: Option<usize>)
    ensures
        r matches Some(i) ==> i < values@.len() && order_raw(values@) == Some(
            values@[i as int].1@,
        ),
        r is None ==> order_raw(values@) is None,
{
    let order_name: String = "MRUListEx".to_owned();
    let n = values.len();
    let mut i: usize = 0;
    proof {
        assert(values@.skip(0) =~= values@);
    }
    while i < n
        invariant
            i <= n,
            n == values@.len(),
            order_name@ == order_list_name(),
            order_raw(values@) == order_raw(values@.skip(i as int)),
        decreases n - i,
    {
        proof {
            assert(values@.skip(i as int).drop_first() =~= values@.skip(i as int + 1));
        }
        if values[i].0 == order_name {
            return Some(i);
        }
        i = i + 1;
    }
    None
}

/// Decodes one value's payload for the artifact family in force.
pub fn decode_payload(family: ArtifactFamily, bytes: &Vec<u8>) -> (p: Result<
    DecodedPayload,
    DecodeError,
>)
    ensures
        payload_matches(p, family, bytes@),
{
    match family {
        ArtifactFamily::SearchHistory => match utf8_to_string(bytes) {
            Some(s) => Ok(DecodedPayload::PlainText(s)),
            None => Err(DecodeError::InvalidStringRecord),
        },
        ArtifactFamily::RecentDocs => match split_dual(bytes) {
            Ok(p) => Ok(DecodedPayload::DualFilename { primary: p.0, secondary: p.1 }),
            Err(e) => Err(e),
        },
        ArtifactFamily::SaveOpenDialog => match read_envelope(bytes) {
            Ok(env) => Ok(DecodedPayload::ItemIdentifierRef(env)),
            Err(e) => Err(e),
        },
        ArtifactFamily::OfficeMru => {
            let units = match bytes_to_units(bytes) {
                Some(u) => u,
                None => {
                    return Err(DecodeError::InvalidStringRecord);
                },
            };
            let trimmed = trim_trailing_zeros(&units);
            let text = match utf16_to_string(&trimmed) {
                Some(s) => s,
                None => {
                    return Err(DecodeError::InvalidStringRecord);
                },
            };
            match extract_timestamped_location(text.as_str()) {
                Ok(p) => Ok(DecodedPayload::TimestampedLocation { when: p.0, location: p.1 }),
                Err(e) => Err(e),
            }
        },
    }
}

/// Assembles one container's facts: the order list is decoded once,
/// then every remaining value becomes one fact, holding its rank from
/// the order list (unresolved when its name is not found there), the
/// container's last-write time, and its decoded payload or the
/// record-scoped error. A present but malformed order list is itself
/// surfaced as a leading marker fact, and every rank is then
/// unresolved.
pub fn assemble_records(container: &Container, family: ArtifactFamily) -> (facts: Vec<MruFact>)
    ensures
        ({
            let kept = kept_values(container.values@, family);
            let order = container_order(container.values@);
            let malformed = order_is_malformed(container.values@);
            let base: int = if malformed {
                1int
            } else {
                0int
            };
            &&& facts@.len() == base + kept.len()
            &&& (malformed ==> order_marker_matches(facts@[0], container.last_write))
            &&& forall|i: int|
                0 <= i < kept.len() ==> fact_matches(
                    #[trigger] facts@[base + i],
                    kept[i].0@,
                    kept[i].1@,
                    order,
                    container.last_write,
                    family,
                )
        }),
{
    let ghost vals = container.values@;
    let order_idx = find_order_value(&container.values);
    let mut malformed = false;
    let order_vec: Vec<u32> = match order_idx {
        Some(i) => match decode_order(&container.values[i].1) {
            Ok(v) => v,
            Err(_) => {
                malformed = true;
                Vec::new()
            },
        },
        None => Vec::new(),
    };
    proof {
        assert(order_vec@ =~= container_order(vals));
        assert(malformed == order_is_malformed(vals));
    }
    let mut facts: Vec<MruFact> = Vec::new();
    if malformed {
        facts.push(
            MruFact {
                rank: None,
                raw_name: "MRUListEx".to_owned(),
                last_write: container.last_write,
                payload: Err(DecodeError::MalformedOrderList),
            },
        );
    }
    let ghost base: int = if malformed {
        1int
    } else {
        0int
    };
    let order_name: String = "MRUListEx".to_owned();
    let n = container.values.len();
    let mut i: usize = 0;
    proof {
        assert(kept_values(vals.take(0), family) =~= Seq::<(String, Vec<u8>)>::empty());
    }
    while i < n
        invariant
            i <= n,
            n == vals.len(),
            vals == container.values@,
            order_name@ == order_list_name(),
            order_vec@ == container_order(vals),
            malformed == order_is_malformed(vals),
            base == if malformed {
                1int
            } else {
                0int
            },
            facts@.len() == base + kept_values(vals.take(i as int), family).len(),
            malformed ==> order_marker_matches(facts@[0], container.last_write),
            forall|k: int|
                0 <= k < kept_values(vals.take(i as int), family).len() ==> fact_matches(
                    #[trigger] facts@[base + k],
                    kept_values(vals.take(i as int), family)[k].0@,
                    kept_values(vals.take(i as int), family)[k].1@,
                    container_order(vals),
                    container.last_write,
                    family,
                ),
        decreases n - i,
    {
        let name = &container.values[i].0;
        let is_meta = *name == order_name || (matches!(family, ArtifactFamily::OfficeMru)
            && contains_str(name.as_str(), "FOLDERID"));
        if !is_meta {
            let rank = rank_lookup(name, &order_vec);
            let payload = decode_payload(family, &container.values[i].1);
            facts.push(
                MruFact {
                    rank,
                    raw_name: name.clone(),
                    last_write: container.last_write,
                    payload,
                },
            );
        }
        proof {
            let t1 = vals.take(i as int + 1);
            assert(t1.drop_last() =~= vals.take(i as int));
            assert(t1.last() == vals[i as int]);
            assert(is_meta == is_metadata_name(vals[i as int].0@, family));
            reveal_with_fuel(Seq::<_>::filter, 2);
            if is_meta {
                assert(kept_values(t1, family) == kept_values(vals.take(i as int), family));
            } else {
                assert(kept_values(t1, family) == kept_values(vals.take(i as int), family).push(
                    vals[i as int],
                ));
            }
        }
        i = i + 1;
    }
    proof {
        assert(vals.take(n as int) =~= vals);
    }
    facts
}

} // verus!
