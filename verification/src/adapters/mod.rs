//! Log adapters: parsers that map raw log records to behaviour graph primitives.
pub mod auth;
pub mod docker;
pub mod github;
pub mod json;

use crate::domain::{entity_id_of, Edge, Entity, Event};
use crate::json_value::{JsonData, JsonValue};
use crate::normalization::identity::{resolved_name, resolved_type, IdentityConfig, IdentityResolver};
use crate::text::{lines_str, lines_text, trim_str, trim_text};
use crate::time::current_instant;
use crate::time::Timestamp;
use vstd::prelude::*;

pub use auth::SyslogAuthAdapter;
pub use docker::DockerEventsAdapter;
pub use github::GitHubEventsAdapter;
pub use json::JsonLogAdapter;

verus! {

/// What one log record gives: its entities, its event and its edges.
pub type Record = (Vec<Entity>, Event, Vec<Edge>);

/// The normalised product of an adapter parsing raw log input.
#[derive(Debug)]
pub struct IngestionBatch {
    pub entities: Vec<Entity>,
    pub events: Vec<Event>,
    pub edges: Vec<Edge>,
}

impl IngestionBatch {
    /// An empty batch.
    pub fn new() -> (r: IngestionBatch)
        ensures
            r.entities@.len() == 0,
            r.events@.len() == 0,
            r.edges@.len() == 0,
    {
        IngestionBatch { entities: Vec::new(), events: Vec::new(), edges: Vec::new() }
    }

    /// Whether the batch holds nothing.
    pub fn is_empty(&self) -> (r: bool)
        ensures
            r == (self.entities@.len() == 0 && self.events@.len() == 0 && self.edges@.len() == 0),
    {
        self.entities.len() == 0 && self.events.len() == 0 && self.edges.len() == 0
    }

    /// Appends everything of `other` after what this batch holds.
    pub fn merge(&mut self, other: IngestionBatch)
        ensures
            final(self).entities@ == old(self).entities@ + other.entities@,
            final(self).events@ == old(self).events@ + other.events@,
            final(self).edges@ == old(self).edges@ + other.edges@,
    {
        let mut other = other;
        self.entities.append(&mut other.entities);
        self.events.append(&mut other.events);
        self.edges.append(&mut other.edges);
    }

    /// Appends the primitives of one record.
    pub fn add_record(&mut self, record: Record)
        ensures
            final(self).entities@ == old(self).entities@ + record.0@,
            final(self).events@ == old(self).events@.push(record.1),
            final(self).edges@ == old(self).edges@ + record.2@,
    {
        let (mut entities, event, mut edges) = record;
        self.entities.append(&mut entities);
        self.events.push(event);
        self.edges.append(&mut edges);
    }
}

impl Default for IngestionBatch {
    fn default() -> (r: IngestionBatch)
        ensures
            r.entities@.len() == 0,
            r.events@.len() == 0,
            r.edges@.len() == 0,
    {
        IngestionBatch::new()
    }
}

/// The entity that resolving `raw` with `default_type` gives, with these
/// attributes, valid from `at`.
pub open spec fn is_resolved_entity(
    e: Entity,
    rules: IdentityConfig,
    raw: Seq<char>,
    default_type: Seq<char>,
    attributes: JsonData,
    at: Timestamp,
) -> bool {
    &&& e.canonical_name@ == resolved_name(rules, raw)
    &&& e.entity_type@ == resolved_type(rules, raw, default_type)
    &&& e.id == entity_id_of(e.entity_type@, e.canonical_name@)
    &&& e.attributes.data() == attributes
    &&& e.valid_from == at
    &&& e.valid_to is None
}

/// An edge of type `rel` from `source` to `target`, seen once at `at`.
pub open spec fn is_edge(e: Edge, source: u128, target: u128, rel: Seq<char>, at: Timestamp) -> bool {
    &&& e.source_id == source
    &&& e.target_id == target
    &&& e.rel_type@ == rel
    &&& e.first_seen == at
    &&& e.last_seen == at
}

/// An event with these fields (its identifier is random).
pub open spec fn is_event(
    e: Event,
    event_type: Seq<char>,
    at: Timestamp,
    source: u128,
    target: Option<u128>,
    context: JsonData,
) -> bool {
    &&& e.event_type@ == event_type
    &&& e.timestamp == at
    &&& e.source_id == source
    &&& e.target_id == target
    &&& e.context.data() == context
}

/// The entities, events and edges of a list of records, in order.
pub open spec fn records_entities(recs: Seq<Record>) -> Seq<Entity>
    decreases recs.len(),
{
    if recs.len() == 0 {
        Seq::empty()
    } else {
        records_entities(recs.drop_last()) + recs.last().0@
    }
}

pub open spec fn records_events(recs: Seq<Record>) -> Seq<Event> {
    recs.map_values(|r: Record| r.1)
}

pub open spec fn records_edges(recs: Seq<Record>) -> Seq<Edge>
    decreases recs.len(),
{
    if recs.len() == 0 {
        Seq::empty()
    } else {
        records_edges(recs.drop_last()) + recs.last().2@
    }
}

/// The batch holds exactly the primitives of `recs`, record after record.
pub open spec fn batch_of(b: IngestionBatch, recs: Seq<Record>) -> bool {
    &&& b.entities@ == records_entities(recs)
    &&& b.events@ == records_events(recs)
    &&& b.edges@ == records_edges(recs)
}

pub proof fn lemma_batch_of_push(b: IngestionBatch, recs: Seq<Record>, r: Record, b2: IngestionBatch)
    requires
        batch_of(b, recs),
        b2.entities@ == b.entities@ + r.0@,
        b2.events@ == b.events@.push(r.1),
        b2.edges@ == b.edges@ + r.2@,
    ensures
        batch_of(b2, recs.push(r)),
{
    assert(recs.push(r).drop_last() =~= recs);
    assert(records_events(recs.push(r)) =~= records_events(recs).push(r.1));
}

pub proof fn lemma_batch_of_empty(b: IngestionBatch)
    requires
        b.entities@.len() == 0,
        b.events@.len() == 0,
        b.edges@.len() == 0,
    ensures
        batch_of(b, Seq::empty()),
{
    assert(records_events(Seq::<Record>::empty()) =~= Seq::<Event>::empty());
    assert(b.entities@ =~= Seq::<Entity>::empty());
    assert(b.events@ =~= Seq::<Event>::empty());
    assert(b.edges@ =~= Seq::<Edge>::empty());
}

/// An adapter that maps one JSON document to one record.
pub trait JsonAdapter {
    /// `rec` is the record of the document `v`, read with the clock at `now`.
    spec fn spec_record(&self, rec: Record, rules: IdentityConfig, v: JsonData, now: Timestamp) -> bool;

    /// Maps one document, with the clock at `now`; documents that are not objects give nothing.
    fn parse_value_at(&self, v: &JsonValue, resolver: &IdentityResolver, now: Timestamp) -> (r:
        Option<Record>)
        requires
            now.valid(),
        ensures
            (r is Some) == v.data().is_object(),
            r is Some ==> self.spec_record(r->Some_0, resolver.rules(), v.data(), now),
    ;
}

/// `rec` is the record of `v`, read with the clock at some instant.
pub open spec fn is_value_record<A: JsonAdapter>(
    adapter: &A,
    rec: Record,
    rules: IdentityConfig,
    v: JsonData,
) -> bool {
    exists|now: Timestamp| now.valid() && #[trigger] adapter.spec_record(rec, rules, v, now)
}

/// The models of a list of documents.
pub open spec fn values_data(vs: Seq<JsonValue>) -> Seq<JsonData> {
    vs.map_values(|v: JsonValue| v.data())
}

/// The objects among a list of document models.
pub open spec fn json_objects(ds: Seq<JsonData>) -> Seq<JsonData> {
    ds.filter(|d: JsonData| d.is_object())
}

/// The batch of the records of a list of documents.
pub open spec fn is_values_batch<A: JsonAdapter>(
    adapter: &A,
    b: IngestionBatch,
    rules: IdentityConfig,
    ds: Seq<JsonData>,
) -> bool {
    exists|recs: Seq<Record>|
        {
            &&& recs.len() == json_objects(ds).len()
            &&& batch_of(b, recs)
            &&& forall|i: int|
                0 <= i < recs.len() ==> #[trigger] is_value_record(
                    adapter,
                    recs[i],
                    rules,
                    json_objects(ds)[i],
                )
        }
}

/// Maps every document of a list, in order, reading the clock for each one.
pub fn parse_values<A: JsonAdapter>(adapter: &A, values: &Vec<JsonValue>, resolver: &IdentityResolver) -> (r:
    IngestionBatch)
    ensures
        is_values_batch(adapter, r, resolver.rules(), values_data(values@)),
{
    let mut batch = IngestionBatch::new();
    let ghost all = values_data(values@);
    let ghost mut recs: Seq<Record> = Seq::empty();
    proof {
        lemma_batch_of_empty(batch);
        assert(json_objects(all.take(0)) =~= Seq::<JsonData>::empty());
    }
    let mut i: usize = 0;
    while i < values.len()
        invariant
            i <= values@.len(),
            all == values_data(values@),
            recs.len() == json_objects(all.take(i as int)).len(),
            batch_of(batch, recs),
            forall|k: int|
                0 <= k < recs.len() ==> #[trigger] is_value_record(
                    adapter,
                    recs[k],
                    resolver.rules(),
                    json_objects(all.take(i as int))[k],
                ),
        decreases values@.len() - i,
    {
        let ghost prev = json_objects(all.take(i as int));
        proof {
            reveal_with_fuel(Seq::filter, 1);
            assert(all.take(i + 1).drop_last() =~= all.take(i as int));
            assert(all[i as int] == values@[i as int].data());
        }
        let ghost next = json_objects(all.take(i + 1));
        let now = current_instant();
        if let Some(rec) = adapter.parse_value_at(&values[i], resolver, now) {
            proof {
                assert(next == prev.push(all[i as int]));
            }
            let ghost before = batch;
            batch.add_record(rec);
            proof {
                lemma_batch_of_push(before, recs, rec, batch);
                let ghost old_recs = recs;
                recs = recs.push(rec);
                assert forall|k: int| 0 <= k < recs.len() implies #[trigger] is_value_record(
                    adapter,
                    recs[k],
                    resolver.rules(),
                    next[k],
                ) by {
                    if k < old_recs.len() {
                        assert(recs[k] == old_recs[k]);
                        assert(next[k] == prev[k]);
                    } else {
                        assert(recs[k] == rec);
                        assert(next[k] == all[i as int]);
                        assert(adapter.spec_record(rec, resolver.rules(), all[i as int], now));
                    }
                }
            }
        } else {
            proof {
                assert(next == prev);
            }
        }
        i += 1;
    }
    proof {
        assert(all.take(values@.len() as int) =~= all);
    }
    batch
}

/// Two records describe the same part of the graph: the same entities (same
/// identifiers, names, types and start of validity), the same edges, and events
/// that differ at most in their random identifier.
pub open spec fn same_graph(r1: Record, r2: Record) -> bool {
    &&& r1.0@.len() == r2.0@.len()
    &&& forall|i: int| 0 <= i < r1.0@.len() ==> {
        &&& (#[trigger] r1.0@[i]).id == r2.0@[i].id
        &&& r1.0@[i].canonical_name@ == r2.0@[i].canonical_name@
        &&& r1.0@[i].entity_type@ == r2.0@[i].entity_type@
        &&& r1.0@[i].valid_from == r2.0@[i].valid_from
    }
    &&& r1.2@.len() == r2.2@.len()
    &&& forall|i: int| 0 <= i < r1.2@.len() ==> {
        &&& (#[trigger] r1.2@[i]).source_id == r2.2@[i].source_id
        &&& r1.2@[i].target_id == r2.2@[i].target_id
        &&& r1.2@[i].rel_type@ == r2.2@[i].rel_type@
        &&& r1.2@[i].first_seen == r2.2@[i].first_seen
    }
    &&& r1.1.event_type@ == r2.1.event_type@
    &&& r1.1.timestamp == r2.1.timestamp
    &&& r1.1.source_id == r2.1.source_id
    &&& r1.1.target_id == r2.1.target_id
    &&& r1.1.context.data() == r2.1.context.data()
}

/// Merging batches: the result is empty exactly when both were, and it holds
/// the first batch's primitives followed by the second's.
pub proof fn law_merge_batches(a: IngestionBatch, b: IngestionBatch, merged: IngestionBatch)
    requires
        merged.entities@ == a.entities@ + b.entities@,
        merged.events@ == a.events@ + b.events@,
        merged.edges@ == a.edges@ + b.edges@,
    ensures
        (merged.entities@.len() == 0 && merged.events@.len() == 0 && merged.edges@.len() == 0) <==> (
        a.entities@.len() == 0 && a.events@.len() == 0 && a.edges@.len() == 0 && b.entities@.len() == 0
            && b.events@.len() == 0 && b.edges@.len() == 0),
        merged.events@.len() == a.events@.len() + b.events@.len(),
        merged.entities@.len() == a.entities@.len() + b.entities@.len(),
        merged.edges@.len() == a.edges@.len() + b.edges@.len(),
{
}

/// The trimmed lines that hold more than white space, in order: the lines of a
/// log that are read as documents one by one.
pub open spec fn document_lines_text(ls: Seq<Seq<char>>) -> Seq<Seq<char>>
    decreases ls.len(),
{
    if ls.len() == 0 {
        Seq::empty()
    } else {
        let rest = document_lines_text(ls.drop_last());
        let t = trim_text(ls.last());
        if t.len() == 0 {
            rest
        } else {
            rest.push(t)
        }
    }
}

/// The lines of `content` to read as JSON documents: each line trimmed, blank
/// lines left out.
pub fn document_lines(content: &str) -> (r: Vec<&str>)
    ensures
        r@.len() == document_lines_text(lines_text(content@)).len(),
        forall|i: int| 0 <= i < r@.len() ==> (#[trigger] r@[i])@ == document_lines_text(lines_text(content@))[i],
{
    let lines = lines_str(content);
    let ghost ls = lines_text(content@);
    let mut out: Vec<&str> = Vec::new();
    let mut i: usize = 0;
    while i < lines.len()
        invariant
            i <= lines@.len(),
            lines@.len() == ls.len(),
            forall|k: int| 0 <= k < lines@.len() ==> (#[trigger] lines@[k])@ == ls[k],
            out@.len() == document_lines_text(ls.subrange(0, i as int)).len(),
            forall|k: int| 0 <= k < out@.len() ==> (#[trigger] out@[k])@ == document_lines_text(
                ls.subrange(0, i as int),
            )[k],
        decreases lines@.len() - i,
    {
        assert(ls.subrange(0, i + 1).drop_last() =~= ls.subrange(0, i as int));
        let t = trim_str(lines[i]);
        if !t.is_empty() {
            out.push(t);
        }
        i += 1;
    }
    assert(ls.subrange(0, ls.len() as int) =~= ls);
    out
}

/// The documents that were read, in order, leaving out the lines that did not read.
pub open spec fn read_documents(decoded: Seq<Option<JsonValue>>) -> Seq<JsonValue>
    decreases decoded.len(),
{
    if decoded.len() == 0 {
        Seq::empty()
    } else {
        let first = match decoded[0] {
            Some(v) => seq![v],
            None => Seq::empty(),
        };
        first + read_documents(decoded.drop_first())
    }
}

/// Keeps the documents that read, given what reading each line of
/// `document_lines` gave, in order.
pub fn line_documents(decoded: Vec<Option<JsonValue>>) -> (r: Vec<JsonValue>)
    ensures
        r@ == read_documents(decoded@),
{
    let ghost all = decoded@;
    let mut rest = decoded;
    let mut out: Vec<JsonValue> = Vec::new();
    while rest.len() > 0
        invariant
            out@ + read_documents(rest@) == read_documents(all),
        decreases rest@.len(),
    {
        let ghost before = rest@;
        let first = rest.remove(0);
        assert(rest@ =~= before.drop_first());
        match first {
            Some(v) => {
                out.push(v);
                assert(out@ + read_documents(rest@) =~= out@.drop_last() + read_documents(before));
            },
            None => {
                assert(read_documents(before) =~= read_documents(rest@));
            },
        }
    }
    assert(read_documents(rest@) =~= Seq::<JsonValue>::empty());
    assert(out@ =~= out@ + read_documents(rest@));
    out
}

} // verus!
