//! Which table an export names.
use crate::errors::LafufuError;
use crate::text::{concat2, lowercase_str, str_equal, unicode_lowercase};
use vstd::prelude::*;

verus! {

/// The tables of the behaviour graph that can be exported.
#[derive(Clone, Copy, Debug, PartialEq, Eq, Structural)]
pub enum ExportTable {
    Entities,
    Events,
    Edges,
}

/// The table a name designates: its lower case, singular or plural.
pub open spec fn export_table_of(table: Seq<char>) -> Option<ExportTable> {
    let t = unicode_lowercase(table);
    if t == "entities"@ || t == "entity"@ {
        Some(ExportTable::Entities)
    } else if t == "events"@ || t == "event"@ {
        Some(ExportTable::Events)
    } else if t == "edges"@ || t == "edge"@ {
        Some(ExportTable::Edges)
    } else {
        None
    }
}

/// Exports of the behaviour graph.
pub struct ExportEngine;

impl ExportEngine {
    /// The table an export target names, or an ingestion error that lists the valid ones.
    pub fn select_table(table: &str) -> (r: Result<ExportTable, LafufuError>)
        ensures
            match r {
                Ok(t) => export_table_of(table@) == Some(t),
                Err(e) => export_table_of(table@) is None && (e matches LafufuError::Ingestion(m)
                    && m@ == "Invalid export table target: '"@ + table@
                    + "'. Valid options: entities, events, edges"@),
            },
    {
        let lower = lowercase_str(table);
        let t = lower.as_str();
        if str_equal(t, "entities") || str_equal(t, "entity") {
            Ok(ExportTable::Entities)
        } else if str_equal(t, "events") || str_equal(t, "event") {
            Ok(ExportTable::Events)
        } else if str_equal(t, "edges") || str_equal(t, "edge") {
            Ok(ExportTable::Edges)
        } else {
            let m = concat2("Invalid export table target: '", table);
            Err(LafufuError::Ingestion(concat2(m.as_str(), "'. Valid options: entities, events, edges")))
        }
    }
}

} // verus!
