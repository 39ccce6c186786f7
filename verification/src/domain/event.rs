//! Events: immutable occurrences.
use crate::json_value::JsonValue;
use crate::time::Timestamp;
use vstd::prelude::*;

verus! {

/// The version field (bits 76 to 79) of a UUID.
pub open spec fn uuid_version(id: u128) -> u128 {
    (id >> 76u128) & 0xfu128
}

/// The variant field (bits 62 and 63) of a UUID.
pub open spec fn uuid_variant(id: u128) -> u128 {
    (id >> 62u128) & 0x3u128
}

/// `uuid::Uuid::new_v4`: a random identifier; only its version (4) and
/// variant (RFC 4122) are known.
#[verifier::external_body]
fn uuid_new_v4() -> (r: u128)
    ensures
        uuid_version(r) == 4,
        uuid_variant(r) == 2,
{
    uuid::Uuid::new_v4().as_u128()
}

/// Something that happened: a type, a time, a source entity, an optional
/// target entity, and its context.
#[derive(Debug)]
pub struct Event {
    pub id: u128,
    pub event_type: String,
    pub timestamp: Timestamp,
    pub source_id: u128,
    pub target_id: Option<u128>,
    pub context: JsonValue,
}

impl Event {
    /// A new event with a fresh random identifier.
    pub fn new(
        event_type: &str,
        timestamp: Timestamp,
        source_id: u128,
        target_id: Option<u128>,
        context: JsonValue,
    ) -> (r: Event)
        ensures
            r.event_type@ == event_type@,
            r.timestamp == timestamp,
            r.source_id == source_id,
            r.target_id == target_id,
            r.context == context,
            uuid_version(r.id) == 4,
            uuid_variant(r.id) == 2,
    {
        Event {
            id: uuid_new_v4(),
            event_type: event_type.to_owned(),
            timestamp,
            source_id,
            target_id,
            context,
        }
    }
}

} // verus!
