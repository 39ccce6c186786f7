//! Generic JSON and NDJSON logs.
use crate::adapters::auth::text_or;
use crate::adapters::{
    is_edge, is_event, is_resolved_entity, is_values_batch, parse_values, values_data, IngestionBatch,
    same_graph, JsonAdapter, Record,
};
use crate::domain::{Edge, Event};
use crate::json_value::{
    empty_object, items_data, lemma_items_data, lemma_members_data, members_data, JsonData,
    JsonValue,
};
use crate::normalization::identity::{resolved_name, resolved_type, IdentityConfig, IdentityResolver};
use crate::normalization::timestamp::{parse_timestamp_in_year, timestamp_reading_at};
use crate::text::{
    ends_with_str, ends_with_text, i64_to_text, int_text, lowercase_str, starts_with_str,
    starts_with_text, str_equal, trim_str, trim_text, unicode_lowercase,
};
use crate::time::{format_instant, Timestamp};
use vstd::prelude::*;

verus! {

/// Whether a text reads as a JSON document, as `serde_json::from_str::<Value>` decides.
pub uninterp spec fn is_json_text(s: Seq<char>) -> bool;

/// `serde_json::from_str::<serde_json::Value>` succeeds.
#[verifier::external_body]
fn reads_as_json(s: &str) -> (r: bool)
    ensures
        r == is_json_text(s@),
{
    serde_json::from_str::<serde_json::Value>(s).is_ok()
}

/// Keys (lower-cased) that give the time.
pub open spec fn time_keys() -> Seq<Seq<char>> {
    seq!["timestamp"@, "time"@, "ts"@, "@timestamp"@, "date"@]
}

/// Keys (lower-cased) that give the event type.
pub open spec fn event_keys() -> Seq<Seq<char>> {
    seq!["event"@, "event_type"@, "action"@, "type"@, "message"@]
}

/// Keys (lower-cased) that give the source entity.
pub open spec fn source_keys() -> Seq<Seq<char>> {
    seq!["user"@, "username"@, "actor"@, "source"@, "service"@, "app"@]
}

/// Keys (lower-cased) that give the target entity.
pub open spec fn target_keys() -> Seq<Seq<char>> {
    seq!["target"@, "dest"@, "destination"@, "resource"@, "server"@]
}

/// The time a member value gives: a text, an integer, or the text of a
/// number, read as a timestamp in the year of `now`.
pub open spec fn json_time_value(v: JsonData, now: Timestamp) -> Option<Timestamp> {
    let a = match v.as_str() {
        Some(s) => timestamp_reading_at(s, now),
        None => None,
    };
    let b = match v.as_i64() {
        Some(i) => timestamp_reading_at(int_text(i as int), now),
        None => None,
    };
    let c = match v.float_text() {
        Some(f) => timestamp_reading_at(f, now),
        None => None,
    };
    if a is Some {
        a
    } else if b is Some {
        b
    } else {
        c
    }
}

/// The time of the first member with a time key whose value reads.
pub open spec fn members_time(ms: Seq<(Seq<char>, JsonData)>, now: Timestamp) -> Option<Timestamp>
    decreases ms.len(),
{
    if ms.len() == 0 {
        None
    } else {
        let here = if time_keys().contains(unicode_lowercase(ms[0].0)) {
            json_time_value(ms[0].1, now)
        } else {
            None
        };
        if here is Some {
            here
        } else {
            members_time(ms.drop_first(), now)
        }
    }
}

/// The first member with one of `keys` (lower-cased) whose value is a text:
/// its lower-cased key and its text.
pub open spec fn members_first_str(ms: Seq<(Seq<char>, JsonData)>, keys: Seq<Seq<char>>) -> Option<
    (Seq<char>, Seq<char>),
>
    decreases ms.len(),
{
    if ms.len() == 0 {
        None
    } else if keys.contains(unicode_lowercase(ms[0].0)) && ms[0].1.as_str() is Some {
        Some((unicode_lowercase(ms[0].0), ms[0].1.as_str()->Some_0))
    } else {
        members_first_str(ms.drop_first(), keys)
    }
}

/// The members of an object model.
pub open spec fn members_of(d: JsonData) -> Seq<(Seq<char>, JsonData)> {
    match d {
        JsonData::Object(m) => m,
        _ => Seq::empty(),
    }
}

/// The time of a log object, or `now`.
pub open spec fn json_log_time(d: JsonData, now: Timestamp) -> Timestamp {
    match members_time(members_of(d), now) {
        Some(t) => t,
        None => now,
    }
}

/// The event type of a log object.
pub open spec fn json_log_event_type(d: JsonData) -> Seq<char> {
    match members_first_str(members_of(d), event_keys()) {
        Some((_, s)) => s,
        None => "generic_json_event"@,
    }
}

/// The source name and default type of a log object.
pub open spec fn json_log_source(d: JsonData) -> (Seq<char>, Seq<char>) {
    match members_first_str(members_of(d), source_keys()) {
        Some((k, s)) => (s, if k == "service"@ || k == "app"@ {
            "service"@
        } else {
            "user"@
        }),
        None => ("system"@, "service"@),
    }
}

/// The target name of a log object, when it names one.
pub open spec fn json_log_target(d: JsonData) -> Option<Seq<char>> {
    match members_first_str(members_of(d), target_keys()) {
        Some((_, s)) => Some(s),
        None => None,
    }
}

/// The record of a log object `d`, read with the clock at `now`.
pub open spec fn is_json_log_record(rec: Record, rules: IdentityConfig, d: JsonData, now: Timestamp) -> bool {
    let at = json_log_time(d, now);
    let ents = rec.0@;
    let edges = rec.2@;
    let empty = JsonData::Object(Seq::empty());
    let (source, source_type) = json_log_source(d);
    &&& ents.len() >= 1
    &&& is_resolved_entity(ents[0], rules, source, source_type, empty, at)
    &&& match json_log_target(d) {
        Some(target) => {
            &&& ents.len() == 2
            &&& edges.len() == 1
            &&& is_resolved_entity(ents[1], rules, target, "resource"@, empty, at)
            &&& is_edge(edges[0], ents[0].id, ents[1].id, "interacted_with"@, at)
            &&& is_event(rec.1, json_log_event_type(d), at, ents[0].id, Some(ents[1].id), d)
        },
        None => {
            &&& ents.len() == 1
            &&& edges.len() == 0
            &&& is_event(rec.1, json_log_event_type(d), at, ents[0].id, None, d)
        },
    }
}

/// Whether `k` is one of `keys`.
fn key_among(k: &str, keys: &Vec<&str>) -> (r: bool)
    ensures
        r == keys@.map_values(|s: &str| s@).contains(k@),
{
    let ghost ks = keys@.map_values(|s: &str| s@);
    let mut i: usize = 0;
    while i < keys.len()
        invariant
            i <= keys@.len(),
            ks == keys@.map_values(|s: &str| s@),
            forall|j: int| 0 <= j < i ==> ks[j] != k@,
        decreases keys@.len() - i,
    {
        if str_equal(keys[i], k) {
            assert(ks[i as int] == k@);
            return true;
        }
        i += 1;
    }
    false
}

/// The first member with one of `keys` whose value is a text.
fn first_str_member<'a>(members: &'a Vec<(String, JsonValue)>, keys: &Vec<&str>) -> (r: Option<
    (String, &'a str),
>)
    ensures
        match r {
            Some((k, s)) => members_first_str(
                members_data(*members, members@.len() as int),
                keys@.map_values(|s: &str| s@),
            ) == Some((k@, s@)),
            None => members_first_str(
                members_data(*members, members@.len() as int),
                keys@.map_values(|s: &str| s@),
            ) is None,
        },
{
    let ghost m = members_data(*members, members@.len() as int);
    let ghost ks = keys@.map_values(|s: &str| s@);
    proof {
        lemma_members_data(*members, members@.len() as int);
        assert(m.skip(0) =~= m);
    }
    let mut i: usize = 0;
    while i < members.len()
        invariant
            i <= members@.len(),
            m == members_data(*members, members@.len() as int),
            m.len() == members@.len(),
            ks == keys@.map_values(|s: &str| s@),
            forall|k: int| 0 <= k < m.len() ==> #[trigger] m[k] == (members@[k].0@, members@[k].1.data()),
            members_first_str(m, ks) == members_first_str(m.skip(i as int), ks),
        decreases members@.len() - i,
    {
        let lowered = lowercase_str(members[i].0.as_str());
        let ghost rest = m.skip(i as int);
        assert(rest[0] == m[i as int]);
        assert(rest.drop_first() =~= m.skip(i + 1));
        if key_among(lowered.as_str(), keys) {
            if let Some(s) = members[i].1.as_str() {
                return Some((lowered, s));
            }
        }
        i += 1;
    }
    None
}

/// Parser of generic JSON logs.
pub struct JsonLogAdapter;

impl JsonLogAdapter {
    pub fn new() -> (r: JsonLogAdapter) {
        JsonLogAdapter
    }

    /// Identifier of the adapter.
    pub fn name(&self) -> (r: &'static str)
        ensures
            r@ == "generic_json"@,
    {
        "generic_json"
    }

    /// Whether a sample looks like JSON: braces or brackets at both ends, or a
    /// text that reads as a JSON document.
    pub fn can_parse(&self, sample: &str) -> (r: bool)
        ensures
            r == ({
                let t = trim_text(sample@);
                (starts_with_text(t, "{"@) && ends_with_text(t, "}"@)) || (starts_with_text(t, "["@)
                    && ends_with_text(t, "]"@)) || is_json_text(t)
            }),
    {
        let trimmed = trim_str(sample);
        (starts_with_str(trimmed, "{") && ends_with_str(trimmed, "}")) || (starts_with_str(
            trimmed,
            "[",
        ) && ends_with_str(trimmed, "]")) || reads_as_json(trimmed)
    }

    /// Maps one log object to its record, with the clock at `now`.
    pub fn parse_json_object(&self, obj: &JsonValue, resolver: &IdentityResolver, now: Timestamp) -> (r:
        Option<Record>)
        requires
            now.valid(),
        ensures
            (r is Some) == obj.data().is_object(),
            r is Some ==> is_json_log_record(r->Some_0, resolver.rules(), obj.data(), now),
    {
        let members = match obj {
            JsonValue::Object(members) => members,
            _ => {
                return None;
            },
        };
        let ghost d = obj.data();
        let ghost m = members_data(*members, members@.len() as int);
        proof {
            lemma_members_data(*members, members@.len() as int);
            assert(m.skip(0) =~= m);
        }
        let year = format_instant(now, "%Y");
        let time_keys_exec = vec!["timestamp", "time", "ts", "@timestamp", "date"];
        assert(time_keys_exec@.map_values(|s: &str| s@) =~= time_keys());
        let mut found: Option<Timestamp> = None;
        let mut i: usize = 0;
        while i < members.len()
            invariant_except_break
                found is None,
            invariant
                i <= members@.len(),
                m == members_data(*members, members@.len() as int),
                m.len() == members@.len(),
                time_keys_exec@.map_values(|s: &str| s@) == time_keys(),
                forall|k: int|
                    0 <= k < m.len() ==> #[trigger] m[k] == (members@[k].0@, members@[k].1.data()),
                members_time(m, now) == members_time(m.skip(i as int), now),
                year@ == crate::time::formatted_instant(now, "%Y"@),
            ensures
                found == members_time(m, now),
            decreases members@.len() - i,
        {
            let ghost rest = m.skip(i as int);
            assert(rest[0] == m[i as int]);
            assert(rest.drop_first() =~= m.skip(i + 1));
            let lowered = lowercase_str(members[i].0.as_str());
            if key_among(lowered.as_str(), &time_keys_exec) {
                let v = &members[i].1;
                let a = match v.as_str() {
                    Some(s) => parse_timestamp_in_year(s, year.as_str()),
                    None => None,
                };
                let here = if a.is_some() {
                    a
                } else {
                    let b = match v.as_i64() {
                        Some(n) => {
                            let text = i64_to_text(n);
                            parse_timestamp_in_year(text.as_str(), year.as_str())
                        },
                        None => None,
                    };
                    if b.is_some() {
                        b
                    } else {
                        match v.float_text() {
                            Some(f) => parse_timestamp_in_year(f, year.as_str()),
                            None => None,
                        }
                    }
                };
                if here.is_some() {
                    found = here;
                    break;
                }
            }
            i += 1;
        }
        if i == members.len() {
            assert(m.skip(i as int) =~= Seq::<(Seq<char>, JsonData)>::empty());
        }
        let timestamp = match found {
            Some(t) => t,
            None => now,
        };
        assert(timestamp == json_log_time(d, now));
        let event_keys_exec = vec!["event", "event_type", "action", "type", "message"];
        assert(event_keys_exec@.map_values(|s: &str| s@) =~= event_keys());
        let event_type = match first_str_member(members, &event_keys_exec) {
            Some((_, s)) => s,
            None => "generic_json_event",
        };
        let source_keys_exec = vec!["user", "username", "actor", "source", "service", "app"];
        assert(source_keys_exec@.map_values(|s: &str| s@) =~= source_keys());
        let (source_name, source_type) = match first_str_member(members, &source_keys_exec) {
            Some((k, s)) => (s, if str_equal(k.as_str(), "service") || str_equal(k.as_str(), "app") {
                "service"
            } else {
                "user"
            }),
            None => ("system", "service"),
        };
        let source_entity = resolver.resolve_entity(
            source_name,
            source_type,
            empty_object(),
            timestamp,
        );
        let source_id = source_entity.id;
        let target_keys_exec = vec!["target", "dest", "destination", "resource", "server"];
        assert(target_keys_exec@.map_values(|s: &str| s@) =~= target_keys());
        match first_str_member(members, &target_keys_exec) {
            Some((_, target_name)) => {
                let target_entity = resolver.resolve_entity(
                    target_name,
                    "resource",
                    empty_object(),
                    timestamp,
                );
                let target_id = target_entity.id;
                let edge = Edge::new(source_id, target_id, "interacted_with", timestamp);
                let event = Event::new(
                    event_type,
                    timestamp,
                    source_id,
                    Some(target_id),
                    obj.deep_clone(),
                );
                Some((vec![source_entity, target_entity], event, vec![edge]))
            },
            None => {
                let event = Event::new(event_type, timestamp, source_id, None, obj.deep_clone());
                Some((vec![source_entity], event, Vec::new()))
            },
        }
    }

    /// Maps a JSON input: `whole` is the input read as one document, when it
    /// reads; `line_values` are the documents of its lines that read. Only a
    /// top-level array is taken whole.
    pub fn parse_documents(
        &self,
        whole: Option<JsonValue>,
        line_values: Vec<JsonValue>,
        resolver: &IdentityResolver,
    ) -> (r: IngestionBatch)
        ensures
            is_values_batch(
                self,
                r,
                resolver.rules(),
                match whole {
                    Some(w) => match w.data() {
                        JsonData::Array(items) => items,
                        _ => values_data(line_values@),
                    },
                    None => values_data(line_values@),
                },
            ),
    {
        match whole {
            Some(JsonValue::Array(items)) => {
                proof {
                    lemma_items_data(items, items@.len() as int);
                    assert(values_data(items@) =~= items_data(items, items@.len() as int));
                }
                parse_values(self, &items, resolver)
            },
            _ => parse_values(self, &line_values, resolver),
        }
    }
}

impl JsonAdapter for JsonLogAdapter {
    open spec fn spec_record(&self, rec: Record, rules: IdentityConfig, v: JsonData, now: Timestamp) -> bool {
        is_json_log_record(rec, rules, v, now)
    }

    fn parse_value_at(&self, v: &JsonValue, resolver: &IdentityResolver, now: Timestamp) -> (r:
        Option<Record>) {
        self.parse_json_object(v, resolver, now)
    }
}

/// Whether some member of the object `d` holds a text under one of `keys`,
/// its name compared in lower case.
pub open spec fn has_text_member(d: JsonData, keys: Seq<Seq<char>>) -> bool {
    exists|i: int|
        0 <= i < members_of(d).len() && #[trigger] keys.contains(unicode_lowercase(members_of(d)[i].0))
            && members_of(d)[i].1.as_str() is Some
}

/// The search for a text member under one of `keys` finds one exactly when
/// such a member exists.
proof fn lemma_first_str_found(ms: Seq<(Seq<char>, JsonData)>, keys: Seq<Seq<char>>)
    ensures
        (members_first_str(ms, keys) is Some) == exists|i: int|
            0 <= i < ms.len() && #[trigger] keys.contains(unicode_lowercase(ms[i].0)) && ms[i].1.as_str() is Some,
    decreases ms.len(),
{
    if ms.len() > 0 {
        lemma_first_str_found(ms.drop_first(), keys);
        if exists|i: int|
            0 <= i < ms.len() && #[trigger] keys.contains(unicode_lowercase(ms[i].0)) && ms[i].1.as_str() is Some {
            let i = choose|i: int|
                0 <= i < ms.len() && #[trigger] keys.contains(unicode_lowercase(ms[i].0)) && ms[i].1.as_str() is Some;
            if i > 0 {
                assert(ms.drop_first()[i - 1] == ms[i]);
            }
        }
        if exists|i: int|
            0 <= i < ms.len() - 1 && #[trigger] keys.contains(unicode_lowercase(ms.drop_first()[i].0))
                && ms.drop_first()[i].1.as_str() is Some {
            let i = choose|i: int|
                0 <= i < ms.len() - 1 && #[trigger] keys.contains(unicode_lowercase(ms.drop_first()[i].0))
                    && ms.drop_first()[i].1.as_str() is Some;
            assert(ms[i + 1] == ms.drop_first()[i]);
        }
    }
}

/// What a JSON log object becomes, by the members it holds (names compared in
/// lower case, values that are texts):
/// - with a `target`, `dest`, `destination`, `resource` or `server` member, two
///   entities and one `interacted_with` edge from the source to the target, the
///   event pointing at the target; without one, the source alone, no edge and
///   an event without target;
/// - without an `event`, `event_type`, `action`, `type` or `message` member, the
///   event type `generic_json_event`;
/// - without a `user`, `username`, `actor`, `source`, `service` or `app` member,
///   the source is the entity `system`, of type `service` unless the rules say otherwise;
/// - the event's context is the whole object.
pub proof fn law_json_log_members_decide_record(rec: Record, rules: IdentityConfig, d: JsonData, now: Timestamp)
    requires
        is_json_log_record(rec, rules, d, now),
    ensures
        ({
            let ents = rec.0@;
            let edges = rec.2@;
            let ev = rec.1;
            let targets = seq!["target"@, "dest"@, "destination"@, "resource"@, "server"@];
            let events = seq!["event"@, "event_type"@, "action"@, "type"@, "message"@];
            let sources = seq!["user"@, "username"@, "actor"@, "source"@, "service"@, "app"@];
            &&& ents.len() >= 1
            &&& ev.source_id == ents[0].id
            &&& ev.context.data() == d
            &&& has_text_member(d, targets) ==> {
                &&& ents.len() == 2
                &&& edges.len() == 1
                &&& edges[0].rel_type@ == "interacted_with"@
                &&& edges[0].source_id == ents[0].id
                &&& edges[0].target_id == ents[1].id
                &&& ev.target_id == Some(ents[1].id)
            }
            &&& !has_text_member(d, targets) ==> ents.len() == 1 && edges.len() == 0 && ev.target_id is None
            &&& !has_text_member(d, events) ==> ev.event_type@ == "generic_json_event"@
            &&& !has_text_member(d, sources) ==> ents[0].canonical_name@ == resolved_name(rules, "system"@)
                && ents[0].entity_type@ == resolved_type(rules, "system"@, "service"@)
        }),
{
    let ms = members_of(d);
    lemma_first_str_found(ms, target_keys());
    lemma_first_str_found(ms, event_keys());
    lemma_first_str_found(ms, source_keys());
    assert(target_keys() == seq!["target"@, "dest"@, "destination"@, "resource"@, "server"@]);
    assert(event_keys() == seq!["event"@, "event_type"@, "action"@, "type"@, "message"@]);
    assert(source_keys() == seq!["user"@, "username"@, "actor"@, "source"@, "service"@, "app"@]);
}

/// Replaying a JSON log record gives the same graph: two records of the same
/// document, read under the same rules with the clock at the same instant, have
/// the same entities and edges, and events that differ at most in their random
/// identifier.
pub proof fn law_json_replay_is_deterministic(
    r1: Record,
    r2: Record,
    rules: IdentityConfig,
    d: JsonData,
    now: Timestamp,
)
    requires
        is_json_log_record(r1, rules, d, now),
        is_json_log_record(r2, rules, d, now),
    ensures
        same_graph(r1, r2),
{
    match json_log_target(d) {
        Some(_) => {
            assert(r1.0@.len() == 2);
        },
        None => {
            assert(r1.0@.len() == 1);
        },
    }
}

} // verus!
