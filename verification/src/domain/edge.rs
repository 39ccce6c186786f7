//! Edges: observed relationships between two entities.
use crate::time::Timestamp;
use vstd::prelude::*;

verus! {

/// A relationship from one entity to another, with the first and last time it was seen.
#[derive(Debug)]
pub struct Edge {
    pub source_id: u128,
    pub target_id: u128,
    pub rel_type: String,
    pub first_seen: Timestamp,
    pub last_seen: Timestamp,
}

impl Edge {
    /// A relationship seen once, at `timestamp`.
    pub fn new(source_id: u128, target_id: u128, rel_type: &str, timestamp: Timestamp) -> (r: Edge)
        ensures
            r.source_id == source_id,
            r.target_id == target_id,
            r.rel_type@ == rel_type@,
            r.first_seen == timestamp,
            r.last_seen == timestamp,
    {
        Edge { source_id, target_id, rel_type: rel_type.to_owned(), first_seen: timestamp, last_seen: timestamp }
    }
}

} // verus!
