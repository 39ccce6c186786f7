//! GitHub webhook payloads and event exports.
use crate::adapters::{
    is_edge, is_event, is_resolved_entity, is_values_batch, parse_values, values_data, IngestionBatch,
    same_graph, JsonAdapter, Record,
};
use crate::domain::{Edge, Event};
use crate::json_value::{
    and_get, and_str, empty_object, first_some, lemma_items_data, items_data, object4, odata,
    opt_get, opt_str, string_object1, JsonData, JsonValue,
};
use crate::normalization::identity::{resolved_name, IdentityConfig, IdentityResolver};
use crate::normalization::timestamp::{parse_timestamp_in_year, timestamp_reading_at};
use crate::adapters::auth::text_or;
use crate::text::{contains_str, contains_text, owned, str_equal};
use crate::time::{format_instant, Timestamp};
use vstd::prelude::*;

verus! {

/// The documents a JSON input stands for: the items of a top-level array, a
/// top-level object, or else the documents of its lines.
pub open spec fn document_values(whole: Option<JsonData>, lines: Seq<JsonData>) -> Seq<JsonData> {
    match whole {
        Some(JsonData::Array(items)) => items,
        Some(JsonData::Object(m)) => seq![JsonData::Object(m)],
        _ => lines,
    }
}

/// The value that gives the time: `created_at`, else `updated_at`, else `pushed_at`.
pub open spec fn gh_time_source(d: JsonData) -> Option<JsonData> {
    first_some(first_some(d.get("created_at"@), d.get("updated_at"@)), d.get("pushed_at"@))
}

/// The time of a payload, in the year of `now`, or `now`.
pub open spec fn gh_time(d: JsonData, now: Timestamp) -> Timestamp {
    match and_str(gh_time_source(d)) {
        Some(s) => match timestamp_reading_at(s, now) {
            Some(t) => t,
            None => now,
        },
        None => now,
    }
}

/// The login of the actor: `sender.login`, `actor.login`, `actor.display_login`,
/// `pusher.name`, or `github_bot`.
pub open spec fn gh_actor(d: JsonData) -> Seq<char> {
    let actor = match d.get("actor"@) {
        Some(a) => first_some(a.get("login"@), a.get("display_login"@)),
        None => None,
    };
    text_or(
        and_str(
            first_some(
                first_some(and_get(d.get("sender"@), "login"@), actor),
                and_get(d.get("pusher"@), "name"@),
            ),
        ),
        "github_bot"@,
    )
}

/// The repository: `repository.full_name`, `repository.name`, `repo.name`, or `unknown_repo`.
pub open spec fn gh_repo(d: JsonData) -> Seq<char> {
    let repository = match d.get("repository"@) {
        Some(r) => first_some(r.get("full_name"@), r.get("name"@)),
        None => None,
    };
    text_or(and_str(first_some(repository, and_get(d.get("repo"@), "name"@))), "unknown_repo"@)
}

/// The raw type of a payload: `type`, else `action`, or `github_activity`.
pub open spec fn gh_raw_type(d: JsonData) -> Seq<char> {
    text_or(and_str(first_some(d.get("type"@), d.get("action"@))), "github_activity"@)
}

/// The event type of a payload.
pub open spec fn gh_event_type(d: JsonData) -> Seq<char> {
    let t = gh_raw_type(d);
    if d.has_key("commits"@) || contains_text(t, "Push"@) {
        "github_push"@
    } else if d.has_key("pull_request"@) || contains_text(t, "PullRequest"@) {
        "github_pull_request"@
    } else if d.has_key("issue"@) || contains_text(t, "Issue"@) {
        "github_issue"@
    } else if d.has_key("workflow_run"@) || contains_text(t, "Workflow"@) {
        "github_workflow_run"@
    } else {
        t
    }
}

/// The relationship between the actor and the repository for an event type.
pub open spec fn gh_edge_type(event_type: Seq<char>) -> Seq<char> {
    if event_type == "github_push"@ {
        "pushed_to"@
    } else if event_type == "github_pull_request"@ {
        "opened_pr_in"@
    } else if event_type == "github_issue"@ {
        "interacted_with_issue"@
    } else if event_type == "github_workflow_run"@ {
        "triggered_workflow"@
    } else {
        "acted_on"@
    }
}

/// The record of a payload object `d`, read with the clock at `now`.
pub open spec fn is_github_record(rec: Record, rules: IdentityConfig, d: JsonData, now: Timestamp) -> bool {
    let at = gh_time(d, now);
    let ents = rec.0@;
    let edges = rec.2@;
    let et = gh_event_type(d);
    &&& ents.len() == 2
    &&& edges.len() == 1
    &&& is_resolved_entity(
        ents[0],
        rules,
        gh_actor(d),
        "user"@,
        JsonData::Object(seq![("platform"@, JsonData::Str("github"@))]),
        at,
    )
    &&& is_resolved_entity(ents[1], rules, gh_repo(d), "github_repo"@, JsonData::Object(Seq::empty()), at)
    &&& is_edge(edges[0], ents[0].id, ents[1].id, gh_edge_type(et), at)
    &&& is_event(
        rec.1,
        et,
        at,
        ents[0].id,
        Some(ents[1].id),
        JsonData::Object(
            seq![
                ("actor"@, JsonData::Str(gh_actor(d))),
                ("event_type"@, JsonData::Str(et)),
                ("raw_payload"@, d),
                ("repo"@, JsonData::Str(gh_repo(d))),
            ],
        ),
    )
}

/// Parser of GitHub events.
pub struct GitHubEventsAdapter;

fn gh_edge_type_exec(event_type: &str) -> (r: &'static str)
    ensures
        r@ == gh_edge_type(event_type@),
{
    if str_equal(event_type, "github_push") {
        "pushed_to"
    } else if str_equal(event_type, "github_pull_request") {
        "opened_pr_in"
    } else if str_equal(event_type, "github_issue") {
        "interacted_with_issue"
    } else if str_equal(event_type, "github_workflow_run") {
        "triggered_workflow"
    } else {
        "acted_on"
    }
}

impl GitHubEventsAdapter {
    pub fn new() -> (r: GitHubEventsAdapter) {
        GitHubEventsAdapter
    }

    /// Identifier of the adapter.
    pub fn name(&self) -> (r: &'static str)
        ensures
            r@ == "github_events"@,
    {
        "github_events"
    }

    /// Whether a sample looks like GitHub events.
    pub fn can_parse(&self, sample: &str) -> (r: bool)
        ensures
            r == ((contains_text(sample@, "repository"@) || contains_text(sample@, "repo"@)) && (
            contains_text(sample@, "sender"@) || contains_text(sample@, "pusher"@) || contains_text(
                sample@,
                "actor"@,
            ))),
    {
        (contains_str(sample, "repository") || contains_str(sample, "repo")) && (contains_str(
            sample,
            "sender",
        ) || contains_str(sample, "pusher") || contains_str(sample, "actor"))
    }

    /// Maps one payload to its record, with the clock at `now`.
    pub fn parse_event_json(&self, val: &JsonValue, resolver: &IdentityResolver, now: Timestamp) -> (r:
        Option<Record>)
        requires
            now.valid(),
        ensures
            (r is Some) == val.data().is_object(),
            r is Some ==> is_github_record(r->Some_0, resolver.rules(), val.data(), now),
    {
        if !val.is_object() {
            return None;
        }
        let ghost d = val.data();
        let year = format_instant(now, "%Y");
        let time_source = match val.get("created_at") {
            Some(v) => Some(v),
            None => match val.get("updated_at") {
                Some(v) => Some(v),
                None => val.get("pushed_at"),
            },
        };
        assert(odata(time_source) == gh_time_source(d));
        let timestamp = match opt_str(time_source) {
            Some(s) => match parse_timestamp_in_year(s, year.as_str()) {
                Some(t) => t,
                None => now,
            },
            None => now,
        };
        let actor_field = val.get("actor");
        let actor = match actor_field {
            Some(a) => match a.get("login") {
                Some(l) => Some(l),
                None => a.get("display_login"),
            },
            None => None,
        };
        let login_source = match opt_get(val.get("sender"), "login") {
            Some(v) => Some(v),
            None => match actor {
                Some(v) => Some(v),
                None => opt_get(val.get("pusher"), "name"),
            },
        };
        let actor_login = match opt_str(login_source) {
            Some(s) => s,
            None => "github_bot",
        };
        assert(actor_login@ == gh_actor(d));
        let user_entity = resolver.resolve_entity(
            actor_login,
            "user",
            string_object1("platform", owned("github")),
            timestamp,
        );
        proof {
            assert(crate::json_value::string_object(seq![("platform"@, "github"@)]) == JsonData::Object(
                seq![("platform"@, JsonData::Str("github"@))],
            )) by {
                assert(Seq::new(
                    1,
                    |i: int|
                        crate::json_value::str_member(
                            seq![("platform"@, "github"@)][i].0,
                            seq![("platform"@, "github"@)][i].1,
                        ),
                ) =~= seq![("platform"@, JsonData::Str("github"@))]);
            }
        }
        let repository = match val.get("repository") {
            Some(r) => match r.get("full_name") {
                Some(n) => Some(n),
                None => r.get("name"),
            },
            None => None,
        };
        let repo_source = match repository {
            Some(v) => Some(v),
            None => opt_get(val.get("repo"), "name"),
        };
        let repo_name = match opt_str(repo_source) {
            Some(s) => s,
            None => "unknown_repo",
        };
        assert(repo_name@ == gh_repo(d));
        let repo_entity = resolver.resolve_entity(
            repo_name,
            "github_repo",
            empty_object(),
            timestamp,
        );
        let type_source = match val.get("type") {
            Some(v) => Some(v),
            None => val.get("action"),
        };
        let raw_type = match opt_str(type_source) {
            Some(s) => s,
            None => "github_activity",
        };
        assert(raw_type@ == gh_raw_type(d));
        let event_type: &str = if val.get("commits").is_some() || contains_str(raw_type, "Push") {
            "github_push"
        } else if val.get("pull_request").is_some() || contains_str(raw_type, "PullRequest") {
            "github_pull_request"
        } else if val.get("issue").is_some() || contains_str(raw_type, "Issue") {
            "github_issue"
        } else if val.get("workflow_run").is_some() || contains_str(raw_type, "Workflow") {
            "github_workflow_run"
        } else {
            raw_type
        };
        assert(event_type@ == gh_event_type(d));
        let edge_type = gh_edge_type_exec(event_type);
        let user_id = user_entity.id;
        let repo_id = repo_entity.id;
        let edge = Edge::new(user_id, repo_id, edge_type, timestamp);
        let context = object4(
            "actor",
            JsonValue::Str(owned(actor_login)),
            "event_type",
            JsonValue::Str(owned(event_type)),
            "raw_payload",
            val.deep_clone(),
            "repo",
            JsonValue::Str(owned(repo_name)),
        );
        let event = Event::new(event_type, timestamp, user_id, Some(repo_id), context);
        Some((vec![user_entity, repo_entity], event, vec![edge]))
    }

    /// Maps a JSON input: `whole` is the input read as one document, when it
    /// reads; `line_values` are the documents of its lines that read.
    pub fn parse_documents(
        &self,
        whole: Option<JsonValue>,
        line_values: Vec<JsonValue>,
        resolver: &IdentityResolver,
    ) -> (r: IngestionBatch)
        ensures
            is_values_batch(
                self,
                r,
                resolver.rules(),
                document_values(odata_owned(whole), values_data(line_values@)),
            ),
    {
        match whole {
            Some(JsonValue::Array(items)) => {
                proof {
                    lemma_items_data(items, items@.len() as int);
                    assert(values_data(items@) =~= items_data(items, items@.len() as int));
                }
                parse_values(self, &items, resolver)
            },
            Some(JsonValue::Object(members)) => {
                let doc = JsonValue::Object(members);
                let ghost d = doc.data();
                let single = vec![doc];
                proof {
                    assert(values_data(single@) =~= seq![d]);
                }
                parse_values(self, &single, resolver)
            },
            _ => parse_values(self, &line_values, resolver),
        }
    }
}

/// The model of an owned document that may be missing.
pub open spec fn odata_owned(o: Option<JsonValue>) -> Option<JsonData> {
    match o {
        Some(v) => Some(v.data()),
        None => None,
    }
}

impl JsonAdapter for GitHubEventsAdapter {
    open spec fn spec_record(&self, rec: Record, rules: IdentityConfig, v: JsonData, now: Timestamp) -> bool {
        is_github_record(rec, rules, v, now)
    }

    fn parse_value_at(&self, v: &JsonValue, resolver: &IdentityResolver, now: Timestamp) -> (r:
        Option<Record>) {
        self.parse_event_json(v, resolver, now)
    }
}

/// How a payload's kind decides its record. With `t` the payload's `type`, else
/// its `action`, else `github_activity`:
/// - a payload with `commits`, or whose `t` mentions "Push", is a `github_push`
///   with a `pushed_to` edge;
/// - otherwise one with `pull_request`, or whose `t` mentions "PullRequest", is a
///   `github_pull_request` with an `opened_pr_in` edge;
/// - otherwise one with `issue`, or whose `t` mentions "Issue", is a
///   `github_issue` with an `interacted_with_issue` edge;
/// - otherwise one with `workflow_run`, or whose `t` mentions "Workflow", is a
///   `github_workflow_run` with a `triggered_workflow` edge;
/// - any other payload keeps `t` as its event type, with an `acted_on` edge
///   unless `t` is itself one of the four types above.
/// In every case the one edge and the event go from the actor to the repository.
pub proof fn law_github_kind_decides_record(rec: Record, rules: IdentityConfig, d: JsonData, now: Timestamp)
    requires
        is_github_record(rec, rules, d, now),
    ensures
        ({
            let t = text_or(and_str(first_some(d.get("type"@), d.get("action"@))), "github_activity"@);
            let push = d.has_key("commits"@) || contains_text(t, "Push"@);
            let pr = d.has_key("pull_request"@) || contains_text(t, "PullRequest"@);
            let issue = d.has_key("issue"@) || contains_text(t, "Issue"@);
            let workflow = d.has_key("workflow_run"@) || contains_text(t, "Workflow"@);
            let ents = rec.0@;
            let ev = rec.1;
            let edge = rec.2@[0];
            &&& ents.len() == 2
            &&& rec.2@.len() == 1
            &&& ents[0].canonical_name@ == resolved_name(rules, gh_actor(d))
            &&& ents[1].canonical_name@ == resolved_name(rules, gh_repo(d))
            &&& edge.source_id == ents[0].id
            &&& edge.target_id == ents[1].id
            &&& ev.source_id == ents[0].id
            &&& ev.target_id == Some(ents[1].id)
            &&& push ==> ev.event_type@ == "github_push"@ && edge.rel_type@ == "pushed_to"@
            &&& (!push && pr) ==> ev.event_type@ == "github_pull_request"@ && edge.rel_type@
                == "opened_pr_in"@
            &&& (!push && !pr && issue) ==> ev.event_type@ == "github_issue"@ && edge.rel_type@
                == "interacted_with_issue"@
            &&& (!push && !pr && !issue && workflow) ==> ev.event_type@ == "github_workflow_run"@
                && edge.rel_type@ == "triggered_workflow"@
            &&& (!push && !pr && !issue && !workflow) ==> ev.event_type@ == t
            &&& (!push && !pr && !issue && !workflow && t != "github_push"@ && t
                != "github_pull_request"@ && t != "github_issue"@ && t != "github_workflow_run"@)
                ==> edge.rel_type@ == "acted_on"@
        }),
{
    reveal_strlit("github_push");
    reveal_strlit("github_pull_request");
    reveal_strlit("github_issue");
    reveal_strlit("github_workflow_run");
    let t = text_or(and_str(first_some(d.get("type"@), d.get("action"@))), "github_activity"@);
    assert(t == gh_raw_type(d));
    let et = gh_event_type(d);
    assert(rec.1.event_type@ == et);
    assert(rec.2@[0].rel_type@ == gh_edge_type(et));
    assert("github_workflow_run"@ != "github_pull_request"@) by {
        assert("github_workflow_run"@[7] != "github_pull_request"@[7]);
    }
}

/// Replaying a GitHub event gives the same graph: two records of the same document,
/// read under the same rules with the clock at the same instant, describe the
/// same entities and edges, and events that differ at most in their identifier.
pub proof fn law_github_replay_is_deterministic(
    r1: Record,
    r2: Record,
    rules: IdentityConfig,
    d: JsonData,
    now: Timestamp,
)
    requires
        is_github_record(r1, rules, d, now),
        is_github_record(r2, rules, d, now),
    ensures
        same_graph(r1, r2),
{
    assert(r1.0@.len() == 2);
}

} // verus!
