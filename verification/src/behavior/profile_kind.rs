//! Which profile an entity gets, and which of its histograms each event and
//! relationship feeds, with which category.
use crate::domain::entity::{uuid_text, uuid_to_text};
use crate::domain::{Edge, Event};
use crate::json_value::JsonData;
use crate::text::{lowercase_str, owned, str_equal, unicode_lowercase};
use crate::time::{format_instant, formatted_instant};
use vstd::prelude::*;

verus! {

/// The kinds of behavioral profile.
#[derive(Clone, Copy, Debug, PartialEq, Eq, Structural)]
pub enum ProfileKind {
    User,
    Service,
    Container,
    Repository,
    Generic,
}

/// The categorical histograms of the profiles.
#[derive(Clone, Copy, Debug, PartialEq, Eq, Structural)]
pub enum Feature {
    LoginHours,
    Locations,
    Actions,
    InteractionPartners,
    EgressEndpoints,
    ApiEndpoints,
    ActionFrequencies,
    HourlyActivity,
    ProcessNames,
    NetworkPorts,
    Contributors,
    Targets,
}

/// The profile kind of an entity type, by its lower case.
pub open spec fn kind_of_type(entity_type: Seq<char>) -> ProfileKind {
    let t = unicode_lowercase(entity_type);
    if t == "user"@ {
        ProfileKind::User
    } else if t == "service"@ {
        ProfileKind::Service
    } else if t == "container"@ {
        ProfileKind::Container
    } else if t == "github_repo"@ || t == "repository"@ || t == "repo"@ {
        ProfileKind::Repository
    } else {
        ProfileKind::Generic
    }
}

/// The string member `key` of an event's context.
pub open spec fn context_str(context: JsonData, key: Seq<char>) -> Option<Seq<char>> {
    match context.get(key) {
        Some(v) => v.as_str(),
        None => None,
    }
}

/// The endpoint of a service event: the `endpoint` member when there is one,
/// else the `target` member, as long as it is a string.
pub open spec fn service_endpoint(context: JsonData) -> Option<Seq<char>> {
    match context.get("endpoint"@) {
        Some(v) => v.as_str(),
        None => context_str(context, "target"@),
    }
}

/// `base` followed by `(f, x)` when `x` is present.
pub open spec fn with_optional(
    base: Seq<(Feature, Seq<char>)>,
    f: Feature,
    x: Option<Seq<char>>,
) -> Seq<(Feature, Seq<char>)> {
    match x {
        Some(v) => base.push((f, v)),
        None => base,
    }
}

/// The categories an event adds to a profile of the given kind: its hour of
/// the day (`%H`), its type, and a context member that depends on the kind.
pub open spec fn event_features(kind: ProfileKind, e: Event, is_source: bool) -> Seq<(Feature, Seq<char>)> {
    let hour = formatted_instant(e.timestamp, "%H"@);
    let action = e.event_type@;
    let ctx = e.context.data();
    match kind {
        ProfileKind::User => with_optional(
            seq![(Feature::LoginHours, hour), (Feature::Actions, action)],
            Feature::Locations,
            context_str(ctx, "ip"@),
        ),
        ProfileKind::Service => with_optional(
            seq![(Feature::ActionFrequencies, action), (Feature::HourlyActivity, hour)],
            Feature::ApiEndpoints,
            service_endpoint(ctx),
        ),
        ProfileKind::Container => with_optional(
            seq![(Feature::Actions, action), (Feature::HourlyActivity, hour)],
            Feature::ProcessNames,
            context_str(ctx, "command"@),
        ),
        ProfileKind::Repository => with_optional(
            seq![(Feature::Actions, action), (Feature::HourlyActivity, hour)],
            Feature::Contributors,
            if is_source {
                context_str(ctx, "actor"@)
            } else {
                None
            },
        ),
        ProfileKind::Generic => seq![(Feature::Actions, action), (Feature::HourlyActivity, hour)],
    }
}

/// The histogram a relationship feeds in a profile of the given kind.
pub open spec fn edge_feature_of(kind: ProfileKind) -> Feature {
    match kind {
        ProfileKind::User => Feature::InteractionPartners,
        ProfileKind::Service => Feature::EgressEndpoints,
        ProfileKind::Container => Feature::NetworkPorts,
        ProfileKind::Repository => Feature::Contributors,
        ProfileKind::Generic => Feature::Targets,
    }
}

impl ProfileKind {
    /// The profile kind of an entity type, ignoring case.
    pub fn for_entity_type(entity_type: &str) -> (r: ProfileKind)
        ensures
            r == kind_of_type(entity_type@),
    {
        let lower = lowercase_str(entity_type);
        let t = lower.as_str();
        if str_equal(t, "user") {
            ProfileKind::User
        } else if str_equal(t, "service") {
            ProfileKind::Service
        } else if str_equal(t, "container") {
            ProfileKind::Container
        } else if str_equal(t, "github_repo") || str_equal(t, "repository") || str_equal(t, "repo") {
            ProfileKind::Repository
        } else {
            ProfileKind::Generic
        }
    }

    /// The categories an event adds to a profile of this kind, each with its histogram.
    pub fn event_features(&self, e: &Event, is_source: bool) -> (r: Vec<(Feature, String)>)
        requires
            e.timestamp.valid(),
        ensures
            r@.len() == event_features(*self, *e, is_source).len(),
            forall|i: int| 0 <= i < r@.len() ==> (#[trigger] r@[i]).0 == event_features(*self, *e, is_source)[i].0
                && r@[i].1@ == event_features(*self, *e, is_source)[i].1,
    {
        let hour = format_instant(e.timestamp, "%H");
        let action = e.event_type.clone();
        let ctx = &e.context;
        let mut out: Vec<(Feature, String)> = Vec::new();
        let extra: Option<(Feature, String)> = match self {
            ProfileKind::User => {
                out.push((Feature::LoginHours, hour));
                out.push((Feature::Actions, action));
                match ctx.get("ip") {
                    Some(v) => match v.as_str() {
                        Some(s) => Some((Feature::Locations, owned(s))),
                        None => None,
                    },
                    None => None,
                }
            },
            ProfileKind::Service => {
                out.push((Feature::ActionFrequencies, action));
                out.push((Feature::HourlyActivity, hour));
                let endpoint = match ctx.get("endpoint") {
                    Some(v) => v.as_str(),
                    None => match ctx.get("target") {
                        Some(v) => v.as_str(),
                        None => None,
                    },
                };
                match endpoint {
                    Some(s) => Some((Feature::ApiEndpoints, owned(s))),
                    None => None,
                }
            },
            ProfileKind::Container => {
                out.push((Feature::Actions, action));
                out.push((Feature::HourlyActivity, hour));
                match ctx.get("command") {
                    Some(v) => match v.as_str() {
                        Some(s) => Some((Feature::ProcessNames, owned(s))),
                        None => None,
                    },
                    None => None,
                }
            },
            ProfileKind::Repository => {
                out.push((Feature::Actions, action));
                out.push((Feature::HourlyActivity, hour));
                if is_source {
                    match ctx.get("actor") {
                        Some(v) => match v.as_str() {
                            Some(s) => Some((Feature::Contributors, owned(s))),
                            None => None,
                        },
                        None => None,
                    }
                } else {
                    None
                }
            },
            ProfileKind::Generic => {
                out.push((Feature::Actions, action));
                out.push((Feature::HourlyActivity, hour));
                None
            },
        };
        if let Some(x) = extra {
            out.push(x);
        }
        out
    }

    /// The category a relationship adds to a profile of this kind: the other
    /// entity's identifier, in its hyphenated form.
    pub fn edge_feature(&self, edge: &Edge, is_source: bool) -> (r: (Feature, String))
        ensures
            r.0 == edge_feature_of(*self),
            r.1@ == uuid_text(if is_source { edge.target_id } else { edge.source_id }),
    {
        let partner = if is_source { edge.target_id } else { edge.source_id };
        let f = match self {
            ProfileKind::User => Feature::InteractionPartners,
            ProfileKind::Service => Feature::EgressEndpoints,
            ProfileKind::Container => Feature::NetworkPorts,
            ProfileKind::Repository => Feature::Contributors,
            ProfileKind::Generic => Feature::Targets,
        };
        (f, uuid_to_text(partner))
    }
}

} // verus!
