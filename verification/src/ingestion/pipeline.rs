//! The decisions of the ingestion pipeline.
use crate::errors::LafufuError;
use crate::text::{concat2, eq_ignore_ascii_case_str, eq_ignore_ascii_case_text};
use vstd::prelude::*;

verus! {

/// What one ingestion run stored, and with which adapter.
#[derive(Debug)]
pub struct IngestionReport {
    pub events_ingested: usize,
    pub entities_created: usize,
    pub edges_updated: usize,
    pub adapter_used: String,
}

impl IngestionReport {
    /// Nothing ingested, no adapter.
    pub fn new() -> (r: IngestionReport)
        ensures
            r.events_ingested == 0,
            r.entities_created == 0,
            r.edges_updated == 0,
            r.adapter_used@ == Seq::<char>::empty(),
    {
        IngestionReport { events_ingested: 0, entities_created: 0, edges_updated: 0, adapter_used: String::new() }
    }

    /// Adds the counts of another run to this one, which then names the other
    /// run's adapter (as a directory's report does, file after file).
    pub fn absorb(&mut self, other: IngestionReport)
        requires
            old(self).events_ingested + other.events_ingested <= usize::MAX,
            old(self).entities_created + other.entities_created <= usize::MAX,
            old(self).edges_updated + other.edges_updated <= usize::MAX,
        ensures
            final(self).events_ingested == old(self).events_ingested + other.events_ingested,
            final(self).entities_created == old(self).entities_created + other.entities_created,
            final(self).edges_updated == old(self).edges_updated + other.edges_updated,
            final(self).adapter_used@ == other.adapter_used@,
    {
        self.events_ingested = self.events_ingested + other.events_ingested;
        self.entities_created = self.entities_created + other.entities_created;
        self.edges_updated = self.edges_updated + other.edges_updated;
        self.adapter_used = other.adapter_used;
    }
}

impl Default for IngestionReport {
    fn default() -> (r: IngestionReport)
        ensures
            r.events_ingested == 0,
            r.entities_created == 0,
            r.edges_updated == 0,
            r.adapter_used@ == Seq::<char>::empty(),
    {
        IngestionReport::new()
    }
}

/// Whether adapter `i` is the first whose name is `pref`, ignoring ASCII case.
pub open spec fn first_named_adapter(names: Seq<String>, pref: Seq<char>, i: int) -> bool {
    &&& 0 <= i < names.len()
    &&& eq_ignore_ascii_case_text(names[i]@, pref)
    &&& forall|j: int| 0 <= j < i ==> !eq_ignore_ascii_case_text((#[trigger] names[j])@, pref)
}

/// The adapter chosen when none is named: the first that can parse the
/// sample, else the first registered one.
pub open spec fn auto_adapter(can_parse: Seq<bool>, i: int) -> bool {
    if exists|j: int| 0 <= j < can_parse.len() && #[trigger] can_parse[j] {
        0 <= i < can_parse.len() && can_parse[i] && forall|j: int| 0 <= j < i ==> !#[trigger] can_parse[j]
    } else {
        i == 0
    }
}

/// Chooses the adapter for a log, given the registered adapters' names and,
/// in the same order, whether each can parse a sample of it. A named adapter
/// is looked up by name, ignoring ASCII case, and an ingestion error reports
/// an unknown name.
pub fn select_adapter(names: &[String], can_parse: &[bool], preferred: Option<&str>) -> (r: Result<
    usize,
    LafufuError,
>)
    requires
        names@.len() == can_parse@.len(),
        preferred is None ==> names@.len() > 0,
    ensures
        match preferred {
            Some(p) => match r {
                Ok(i) => first_named_adapter(names@, p@, i as int),
                Err(e) => (forall|j: int|
                    0 <= j < names@.len() ==> !eq_ignore_ascii_case_text((#[trigger] names@[j])@, p@))
                    && (e matches LafufuError::Ingestion(m) && m@ == "Adapter '"@ + p@ + "' not found"@),
            },
            None => r matches Ok(i) && auto_adapter(can_parse@, i as int),
        },
{
    match preferred {
        Some(pref) => {
            let mut i: usize = 0;
            while i < names.len()
                invariant
                    preferred == Some(pref),
                    i <= names@.len(),
                    forall|j: int| 0 <= j < i ==> !eq_ignore_ascii_case_text((#[trigger] names@[j])@, pref@),
                decreases names@.len() - i,
            {
                if eq_ignore_ascii_case_str(names[i].as_str(), pref) {
                    return Ok(i);
                }
                i += 1;
            }
            let m = concat2("Adapter '", pref);
            Err(LafufuError::Ingestion(concat2(m.as_str(), "' not found")))
        },
        None => {
            let mut i: usize = 0;
            while i < can_parse.len()
                invariant
                    preferred is None,
                    i <= can_parse@.len(),
                    forall|j: int| 0 <= j < i ==> !#[trigger] can_parse@[j],
                decreases can_parse@.len() - i,
            {
                if can_parse[i] {
                    return Ok(i);
                }
                i += 1;
            }
            Ok(0)
        },
    }
}

} // verus!
