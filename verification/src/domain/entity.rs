//! Entities: anything that acts or is acted upon.
use crate::domain::event::{uuid_variant, uuid_version};
use crate::json_value::JsonValue;
use crate::text::concat2;
use crate::time::Timestamp;
use vstd::arithmetic::power::pow;
use vstd::prelude::*;

verus! {

/// Namespace of the name-based (version 5) identifiers of entities.
pub const LAFUFU_NAMESPACE: u128 = 0x5ca67676_0805_4c21_b88f_3ec5646c6ea8u128;

/// The UUID that `uuid::Uuid::new_v5` derives from a namespace and a name
/// (the name given by the UTF-8 bytes of the text).
pub uninterp spec fn uuid_v5_of(namespace: u128, name: Seq<char>) -> u128;

/// `uuid::Uuid::new_v5`: the name-based identifier of `name` in `namespace`,
/// named by `uuid_v5_of` (the SHA-1 construction is not written out here);
/// its version field is 5 and its variant is RFC 4122, as `Builder::from_sha1_bytes` sets them.
#[verifier::external_body]
fn uuid_new_v5(namespace: u128, name: &str) -> (r: u128)
    ensures
        r == uuid_v5_of(namespace, name@),
        uuid_version(r) == 5,
        uuid_variant(r) == 2,
{
    uuid::Uuid::new_v5(&uuid::Uuid::from_u128(namespace), name.as_bytes()).as_u128()
}

/// The identifier of the entity of a given type and canonical name.
pub open spec fn entity_id_of(entity_type: Seq<char>, canonical_name: Seq<char>) -> u128 {
    uuid_v5_of(LAFUFU_NAMESPACE, entity_type + ":"@ + canonical_name)
}

/// An actor or a target of the behaviour graph, with the attributes valid
/// from `valid_from` (until `valid_to`, when a later version replaced them).
#[derive(Debug)]
pub struct Entity {
    pub id: u128,
    pub entity_type: String,
    pub canonical_name: String,
    pub attributes: JsonValue,
    pub valid_from: Timestamp,
    pub valid_to: Option<Timestamp>,
}

impl Entity {
    /// A current entity, with its deterministic identifier.
    pub fn new(
        entity_type: &str,
        canonical_name: &str,
        attributes: JsonValue,
        valid_from: Timestamp,
    ) -> (r: Entity)
        ensures
            r.id == entity_id_of(entity_type@, canonical_name@),
            uuid_version(r.id) == 5,
            uuid_variant(r.id) == 2,
            r.entity_type@ == entity_type@,
            r.canonical_name@ == canonical_name@,
            r.attributes == attributes,
            r.valid_from == valid_from,
            r.valid_to is None,
    {
        let id = Self::generate_id(entity_type, canonical_name);
        Entity {
            id,
            entity_type: entity_type.to_owned(),
            canonical_name: canonical_name.to_owned(),
            attributes,
            valid_from,
            valid_to: None,
        }
    }

    /// The deterministic identifier (UUID version 5) of an entity type and canonical name.
    pub fn generate_id(entity_type: &str, canonical_name: &str) -> (r: u128)
        ensures
            r == entity_id_of(entity_type@, canonical_name@),
            uuid_version(r) == 5,
            uuid_variant(r) == 2,
    {
        let with_colon = concat2(entity_type, ":");
        let name = concat2(with_colon.as_str(), canonical_name);
        uuid_new_v5(LAFUFU_NAMESPACE, name.as_str())
    }
}

/// A hexadecimal digit, in lower case.
pub open spec fn hex_digit(d: int) -> char {
    if d < 10 {
        ((d + 48) as u32) as char
    } else {
        ((d + 87) as u32) as char
    }
}

/// The 32 hexadecimal digits of a 128-bit value, most significant first.
pub open spec fn hex_text(id: u128) -> Seq<char> {
    Seq::new(32, |k: int| hex_digit((id as int / pow(16, (31 - k) as nat)) % 16))
}

/// A UUID in its hyphenated form, as `uuid::Uuid`'s `Display` writes it:
/// groups of 8, 4, 4, 4 and 12 lower-case hexadecimal digits.
pub open spec fn uuid_text(id: u128) -> Seq<char> {
    let h = hex_text(id);
    h.subrange(0, 8) + "-"@ + h.subrange(8, 12) + "-"@ + h.subrange(12, 16) + "-"@ + h.subrange(16, 20)
        + "-"@ + h.subrange(20, 32)
}

/// `uuid::Uuid::to_string` of the identifier.
#[verifier::external_body]
pub(crate) fn uuid_to_text(id: u128) -> (r: String)
    ensures
        r@ == uuid_text(id),
{
    uuid::Uuid::from_u128(id).to_string()
}

} // verus!
