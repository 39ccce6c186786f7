//! Docker container event streams.
use crate::adapters::auth::text_or;
use crate::adapters::github::{document_values, odata_owned};
use crate::adapters::{
    is_edge, is_event, is_resolved_entity, is_values_batch, parse_values, values_data, IngestionBatch,
    same_graph, JsonAdapter, Record,
};
use crate::domain::{Edge, Event};
use crate::json_value::{
    and_get, and_str, empty_object, first_some, items_data, lemma_items_data, object4, odata, opt_get,
    JsonData, JsonValue,
};
use crate::normalization::identity::{resolved_name, resolved_type, IdentityConfig, IdentityResolver};
use crate::normalization::timestamp::{parse_timestamp_in_year, timestamp_reading_at};
use crate::text::{
    concat2, contains_str, contains_text, i64_to_text, int_text, owned, replace_char_str,
    replace_char_text,
};
use crate::time::{format_instant, Timestamp};
use vstd::prelude::*;

verus! {

/// The first text found.
pub open spec fn first_text(a: Option<Seq<char>>, b: Option<Seq<char>>) -> Option<Seq<char>> {
    if a is Some {
        a
    } else {
        b
    }
}

/// The time of an event: the integer `time` (else `timeNano`) read as a
/// timestamp in the year of `now`, or `now`.
pub open spec fn docker_time(d: JsonData, now: Timestamp) -> Timestamp {
    match first_some(d.get("time"@), d.get("timeNano"@)) {
        Some(v) => match v.as_i64() {
            Some(i) => match timestamp_reading_at(int_text(i as int), now) {
                Some(t) => t,
                None => now,
            },
            None => now,
        },
        None => now,
    }
}

/// The action: `action`, else `Action`, or `container_event`.
pub open spec fn docker_action(d: JsonData) -> Seq<char> {
    text_or(and_str(first_some(d.get("action"@), d.get("Action"@))), "container_event"@)
}

/// The event type: `docker_` and the action with colons made underscores.
pub open spec fn docker_event_type(d: JsonData) -> Seq<char> {
    "docker_"@ + replace_char_text(docker_action(d), ':', "_"@)
}

/// The attributes of the actor, or an empty object.
pub open spec fn docker_attributes(d: JsonData) -> JsonData {
    match and_get(d.get("Actor"@), "Attributes"@) {
        Some(a) => a,
        None => JsonData::Object(Seq::empty()),
    }
}

/// The container: the `name` attribute, else the `id`, or `unknown_container`.
pub open spec fn docker_container(d: JsonData) -> Seq<char> {
    text_or(
        first_text(and_str(docker_attributes(d).get("name"@)), and_str(d.get("id"@))),
        "unknown_container"@,
    )
}

/// The image: the `image` attribute, else `from`, or `unknown_image`.
pub open spec fn docker_image(d: JsonData) -> Seq<char> {
    text_or(
        first_text(and_str(docker_attributes(d).get("image"@)), and_str(d.get("from"@))),
        "unknown_image"@,
    )
}

/// The record of an event object `d`, read with the clock at `now`.
pub open spec fn is_docker_record(rec: Record, rules: IdentityConfig, d: JsonData, now: Timestamp) -> bool {
    let at = docker_time(d, now);
    let ents = rec.0@;
    let edges = rec.2@;
    &&& ents.len() == 2
    &&& edges.len() == 1
    &&& is_resolved_entity(ents[0], rules, docker_container(d), "container"@, docker_attributes(d), at)
    &&& is_resolved_entity(
        ents[1],
        rules,
        docker_image(d),
        "container_image"@,
        JsonData::Object(Seq::empty()),
        at,
    )
    &&& is_edge(edges[0], ents[0].id, ents[1].id, "instantiated_from"@, at)
    &&& is_event(
        rec.1,
        docker_event_type(d),
        at,
        ents[0].id,
        Some(ents[1].id),
        JsonData::Object(
            seq![
                ("action"@, JsonData::Str(docker_action(d))),
                ("container"@, JsonData::Str(docker_container(d))),
                ("image"@, JsonData::Str(docker_image(d))),
                ("raw_event"@, d),
            ],
        ),
    )
}

/// Parser of Docker events.
pub struct DockerEventsAdapter;

impl DockerEventsAdapter {
    pub fn new() -> (r: DockerEventsAdapter) {
        DockerEventsAdapter
    }

    /// Identifier of the adapter.
    pub fn name(&self) -> (r: &'static str)
        ensures
            r@ == "docker_events"@,
    {
        "docker_events"
    }

    /// Whether a sample looks like Docker events.
    pub fn can_parse(&self, sample: &str) -> (r: bool)
        ensures
            r == ((contains_text(sample@, "Type"@) || contains_text(sample@, "type"@)) && (
            contains_text(sample@, "container"@) || contains_text(sample@, "Container"@)
                || contains_text(sample@, "dockerd"@))),
    {
        (contains_str(sample, "Type") || contains_str(sample, "type")) && (contains_str(
            sample,
            "container",
        ) || contains_str(sample, "Container") || contains_str(sample, "dockerd"))
    }

    /// Maps one event object to its record, with the clock at `now`.
    pub fn parse_docker_event(&self, val: &JsonValue, resolver: &IdentityResolver, now: Timestamp) -> (r:
        Option<Record>)
        requires
            now.valid(),
        ensures
            (r is Some) == val.data().is_object(),
            r is Some ==> is_docker_record(r->Some_0, resolver.rules(), val.data(), now),
    {
        if !val.is_object() {
            return None;
        }
        let ghost d = val.data();
        let year = format_instant(now, "%Y");
        let time_field = match val.get("time") {
            Some(v) => Some(v),
            None => val.get("timeNano"),
        };
        let timestamp = match time_field {
            Some(v) => match v.as_i64() {
                Some(i) => {
                    let text = i64_to_text(i);
                    match parse_timestamp_in_year(text.as_str(), year.as_str()) {
                        Some(t) => t,
                        None => now,
                    }
                },
                None => now,
            },
            None => now,
        };
        assert(timestamp == docker_time(d, now));
        let action_field = match val.get("action") {
            Some(v) => Some(v),
            None => val.get("Action"),
        };
        let raw_action = match action_field {
            Some(v) => match v.as_str() {
                Some(s) => s,
                None => "container_event",
            },
            None => "container_event",
        };
        assert(raw_action@ == docker_action(d));
        let replaced = replace_char_str(raw_action, ':', "_");
        let event_type = concat2("docker_", replaced.as_str());
        let attributes = match opt_get(val.get("Actor"), "Attributes") {
            Some(a) => a.deep_clone(),
            None => empty_object(),
        };
        assert(attributes.data() == docker_attributes(d));
        let container_name = match attributes.get("name") {
            Some(v) => match v.as_str() {
                Some(s) => owned(s),
                None => match val.get("id") {
                    Some(i) => match i.as_str() {
                        Some(s) => owned(s),
                        None => owned("unknown_container"),
                    },
                    None => owned("unknown_container"),
                },
            },
            None => match val.get("id") {
                Some(i) => match i.as_str() {
                    Some(s) => owned(s),
                    None => owned("unknown_container"),
                },
                None => owned("unknown_container"),
            },
        };
        assert(container_name@ == docker_container(d));
        let image_name = match attributes.get("image") {
            Some(v) => match v.as_str() {
                Some(s) => owned(s),
                None => match val.get("from") {
                    Some(f) => match f.as_str() {
                        Some(s) => owned(s),
                        None => owned("unknown_image"),
                    },
                    None => owned("unknown_image"),
                },
            },
            None => match val.get("from") {
                Some(f) => match f.as_str() {
                    Some(s) => owned(s),
                    None => owned("unknown_image"),
                },
                None => owned("unknown_image"),
            },
        };
        assert(image_name@ == docker_image(d));
        let container_entity = resolver.resolve_entity(
            container_name.as_str(),
            "container",
            attributes,
            timestamp,
        );
        let image_entity = resolver.resolve_entity(
            image_name.as_str(),
            "container_image",
            empty_object(),
            timestamp,
        );
        let container_id = container_entity.id;
        let image_id = image_entity.id;
        let edge = Edge::new(container_id, image_id, "instantiated_from", timestamp);
        let context = object4(
            "action",
            JsonValue::Str(owned(raw_action)),
            "container",
            JsonValue::Str(container_name),
            "image",
            JsonValue::Str(image_name),
            "raw_event",
            val.deep_clone(),
        );
        let event = Event::new(event_type.as_str(), timestamp, container_id, Some(image_id), context);
        Some((vec![container_entity, image_entity], event, vec![edge]))
    }

    /// Maps a JSON input: `whole` is the input read as one document, when it
    /// reads; `line_values` are the documents of its lines that read.
    pub fn parse_documents(
        &self,
        whole: Option<JsonValue>,
        line_values: Vec<JsonValue>,
        resolver: &IdentityResolver,
    ) -> (r: IngestionBatch)
        ensures
            is_values_batch(
                self,
                r,
                resolver.rules(),
                document_values(odata_owned(whole), values_data(line_values@)),
            ),
    {
        match whole {
            Some(JsonValue::Array(items)) => {
                proof {
                    lemma_items_data(items, items@.len() as int);
                    assert(values_data(items@) =~= items_data(items, items@.len() as int));
                }
                parse_values(self, &items, resolver)
            },
            Some(JsonValue::Object(members)) => {
                let doc = JsonValue::Object(members);
                let ghost d = doc.data();
                let single = vec![doc];
                proof {
                    assert(values_data(single@) =~= seq![d]);
                }
                parse_values(self, &single, resolver)
            },
            _ => parse_values(self, &line_values, resolver),
        }
    }
}

impl JsonAdapter for DockerEventsAdapter {
    open spec fn spec_record(&self, rec: Record, rules: IdentityConfig, v: JsonData, now: Timestamp) -> bool {
        is_docker_record(rec, rules, v, now)
    }

    fn parse_value_at(&self, v: &JsonValue, resolver: &IdentityResolver, now: Timestamp) -> (r:
        Option<Record>) {
        self.parse_docker_event(v, resolver, now)
    }
}

/// Replacing a character by one other character keeps the length and changes
/// exactly the places where that character stood.
proof fn lemma_replace_by_one_char(s: Seq<char>, from: char, to: char)
    ensures
        replace_char_text(s, from, seq![to]).len() == s.len(),
        forall|i: int|
            0 <= i < s.len() ==> #[trigger] replace_char_text(s, from, seq![to])[i] == if s[i] == from {
                to
            } else {
                s[i]
            },
    decreases s.len(),
{
    if s.len() > 0 {
        lemma_replace_by_one_char(s.drop_first(), from, to);
        let r = replace_char_text(s, from, seq![to]);
        let rest = replace_char_text(s.drop_first(), from, seq![to]);
        assert forall|i: int| 0 <= i < s.len() implies #[trigger] r[i] == if s[i] == from {
            to
        } else {
            s[i]
        } by {
            if i > 0 {
                assert(r[i] == rest[i - 1]);
                assert(s.drop_first()[i - 1] == s[i]);
            }
        }
    }
}

/// What a Docker event becomes: an event whose type is `docker_` followed by the
/// action (`action`, else `Action`, else `container_event`) with every colon
/// made an underscore; the container (type `container` unless the rules say
/// otherwise) and its image (type `container_image` unless the rules say
/// otherwise) as entities; one `instantiated_from` edge from the container to
/// the image; the event going from the container to the image. Without actor
/// attributes, the container is named by `id` (else `unknown_container`) and the
/// image by `from` (else `unknown_image`).
pub proof fn law_docker_event_record(rec: Record, rules: IdentityConfig, d: JsonData, now: Timestamp)
    requires
        is_docker_record(rec, rules, d, now),
    ensures
        ({
            let action = text_or(and_str(first_some(d.get("action"@), d.get("Action"@))), "container_event"@);
            let ents = rec.0@;
            let edges = rec.2@;
            let ev = rec.1;
            let et = ev.event_type@;
            &&& et.len() == 7 + action.len()
            &&& et.take(7) == "docker_"@
            &&& forall|i: int|
                0 <= i < action.len() ==> #[trigger] et[7 + i] == if action[i] == ':' {
                    '_'
                } else {
                    action[i]
                }
            &&& ents.len() == 2
            &&& edges.len() == 1
            &&& ents[0].entity_type@ == resolved_type(rules, docker_container(d), "container"@)
            &&& ents[1].entity_type@ == resolved_type(rules, docker_image(d), "container_image"@)
            &&& edges[0].rel_type@ == "instantiated_from"@
            &&& edges[0].source_id == ents[0].id
            &&& edges[0].target_id == ents[1].id
            &&& ev.source_id == ents[0].id
            &&& ev.target_id == Some(ents[1].id)
            &&& d.get("Actor"@) is None ==> {
                &&& ents[0].canonical_name@ == resolved_name(rules, text_or(and_str(d.get("id"@)), "unknown_container"@))
                &&& ents[1].canonical_name@ == resolved_name(rules, text_or(and_str(d.get("from"@)), "unknown_image"@))
            }
        }),
{
    let action = docker_action(d);
    reveal_strlit("_");
    reveal_strlit("docker_");
    assert("_"@ == seq!['_']);
    lemma_replace_by_one_char(action, ':', '_');
    let x = replace_char_text(action, ':', "_"@);
    let et = rec.1.event_type@;
    assert(et == "docker_"@ + x);
    assert(et.take(7) =~= "docker_"@);
    assert forall|i: int| 0 <= i < action.len() implies #[trigger] et[7 + i] == if action[i] == ':' {
        '_'
    } else {
        action[i]
    } by {
        assert(et[7 + i] == x[i]);
    }
}

/// Replaying a Docker event gives the same graph: two records of the same document,
/// read under the same rules with the clock at the same instant, describe the
/// same entities and edges, and events that differ at most in their identifier.
pub proof fn law_docker_replay_is_deterministic(
    r1: Record,
    r2: Record,
    rules: IdentityConfig,
    d: JsonData,
    now: Timestamp,
)
    requires
        is_docker_record(r1, rules, d, now),
        is_docker_record(r2, rules, d, now),
    ensures
        same_graph(r1, r2),
{
    assert(r1.0@.len() == 2);
}

} // verus!
