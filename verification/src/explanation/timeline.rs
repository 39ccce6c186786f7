//! The chronological narrative of one entity's history.
use crate::domain::{Edge, Entity, Event};
use crate::explanation::templates::report_rule;
use crate::text::{
    int_text, lemma_occurs_after, lemma_occurs_at_end, lemma_occurs_before, lemma_occurs_nested, lemma_text_less_asymmetric, lemma_text_less_irreflexive, lemma_text_less_total,
    lemma_text_less_transitive, occurs_at, str_equal, str_less, text_less, usize_to_text,
};
use crate::time::{format_instant, formatted_instant};
use vstd::prelude::*;

verus! {

/// The day of an event, as `%Y-%m-%d` writes it.
pub open spec fn day_key(e: Event) -> Seq<char> {
    formatted_instant(e.timestamp, "%Y-%m-%d"@)
}

/// The texts of a vector of strings.
pub open spec fn texts(v: Seq<String>) -> Seq<Seq<char>> {
    Seq::new(v.len(), |k: int| v[k]@)
}

/// Texts in strictly increasing order.
pub open spec fn strictly_sorted(days: Seq<Seq<char>>) -> bool {
    forall|i: int, j: int| 0 <= i < j < days.len() ==> text_less(#[trigger] days[i], #[trigger] days[j])
}

/// Whether some event happened on `day`.
pub open spec fn has_event_on(events: Seq<Event>, day: Seq<char>) -> bool {
    exists|i: int| 0 <= i < events.len() && #[trigger] day_key(events[i]) == day
}

/// `days` lists, in increasing order and once each, the days on which events happened.
pub open spec fn day_order(events: Seq<Event>, days: Seq<Seq<char>>) -> bool {
    &&& strictly_sorted(days)
    &&& forall|k: int| 0 <= k < days.len() ==> has_event_on(events, #[trigger] days[k])
    &&& forall|i: int| 0 <= i < events.len() ==> days.contains(#[trigger] day_key(events[i]))
}

/// The events of one day, in their order.
pub open spec fn events_on(events: Seq<Event>, day: Seq<char>) -> Seq<Event>
    decreases events.len(),
{
    if events.len() == 0 {
        Seq::empty()
    } else {
        let prev = events_on(events.drop_last(), day);
        if day_key(events.last()) == day {
            prev.push(events.last())
        } else {
            prev
        }
    }
}

/// How many events have a given type.
pub open spec fn count_type(evs: Seq<Event>, t: Seq<char>) -> nat
    decreases evs.len(),
{
    if evs.len() == 0 {
        0
    } else {
        count_type(evs.drop_last(), t) + if evs.last().event_type@ == t {
            1nat
        } else {
            0nat
        }
    }
}

/// The event types, once each, in the order of their first event.
pub open spec fn distinct_types(evs: Seq<Event>) -> Seq<Seq<char>>
    decreases evs.len(),
{
    if evs.len() == 0 {
        Seq::empty()
    } else {
        let prev = distinct_types(evs.drop_last());
        if prev.contains(evs.last().event_type@) {
            prev
        } else {
            prev.push(evs.last().event_type@)
        }
    }
}

/// One action with its count, as `act (xN)`.
pub open spec fn action_part(t: Seq<char>, evs: Seq<Event>) -> Seq<char> {
    t + " (x"@ + int_text(count_type(evs, t) as int) + ")"@
}

/// The actions with their counts, separated by commas.
pub open spec fn action_summary(types: Seq<Seq<char>>, evs: Seq<Event>) -> Seq<char>
    decreases types.len(),
{
    if types.len() == 0 {
        Seq::empty()
    } else if types.len() == 1 {
        action_part(types[0], evs)
    } else {
        action_summary(types.drop_last(), evs) + ", "@ + action_part(types.last(), evs)
    }
}

/// The paragraph of the `rank`-th day.
pub open spec fn phase_text(rank: int, day: Seq<char>, events: Seq<Event>) -> Seq<char> {
    let evs = events_on(events, day);
    " Phase "@ + int_text(rank) + ": ["@ + day + "] — "@ + int_text(evs.len() as int)
        + " events\n   Actions: "@ + action_summary(distinct_types(evs), evs) + "\n"@
}

pub open spec fn phases_text(days: Seq<Seq<char>>, events: Seq<Event>) -> Seq<char>
    decreases days.len(),
{
    if days.len() == 0 {
        Seq::empty()
    } else {
        phases_text(days.drop_last(), events) + phase_text(days.len() as int, days.last(), events)
    }
}

/// How an entity stands in a relationship.
pub open spec fn edge_role(entity_id: u128, edge: Edge) -> Seq<char> {
    if edge.source_id == entity_id {
        "Source -> Target"@
    } else {
        "Target <- Source"@
    }
}

pub open spec fn edge_line(entity_id: u128, edge: Edge) -> Seq<char> {
    " • Relationship '"@ + edge.rel_type@ + "' ("@ + edge_role(entity_id, edge) + ") | First seen: "@
        + formatted_instant(edge.first_seen, "%Y-%m-%d"@) + " | Last seen: "@
        + formatted_instant(edge.last_seen, "%Y-%m-%d"@) + "\n"@
}

pub open spec fn edge_lines(entity_id: u128, edges: Seq<Edge>) -> Seq<char>
    decreases edges.len(),
{
    if edges.len() == 0 {
        Seq::empty()
    } else {
        edge_lines(entity_id, edges.drop_last()) + edge_line(entity_id, edges.last())
    }
}

/// What `build_timeline` writes, given the days of the events in order.
pub open spec fn timeline_text(
    entity: Entity,
    events: Seq<Event>,
    edges: Seq<Edge>,
    days: Seq<Seq<char>>,
) -> Seq<char> {
    let head = report_rule() + " Behavioral Timeline: "@ + entity.canonical_name@ + " ("@
        + entity.entity_type@ + ")\n"@ + report_rule();
    if events.len() == 0 && edges.len() == 0 {
        head + "No recorded behavioral history for this entity.\n"@
    } else {
        let body = head + "Total Observed Events: "@ + int_text(events.len() as int) + "\n"@
            + "Active Timeline Windows: "@ + int_text(days.len() as int) + "\n\n"@
            + "Chronological Phases & Key Activities:\n"@ + phases_text(days, events);
        let with_edges = if edges.len() > 0 {
            body + "\nKnown Graph Relationships:\n"@ + edge_lines(entity.id, edges)
        } else {
            body
        };
        with_edges + report_rule()
    }
}

/// The day of each event.
fn day_keys_of(events: &[Event]) -> (keys: Vec<String>)
    requires
        forall|i: int| 0 <= i < events@.len() ==> (#[trigger] events@[i]).timestamp.valid(),
    ensures
        keys@.len() == events@.len(),
        forall|i: int| 0 <= i < events@.len() ==> (#[trigger] keys@[i])@ == day_key(events@[i]),
{
    let mut keys: Vec<String> = Vec::new();
    let mut i: usize = 0;
    while i < events.len()
        invariant
            i <= events@.len(),
            keys@.len() == i,
            forall|j: int| 0 <= j < events@.len() ==> (#[trigger] events@[j]).timestamp.valid(),
            forall|j: int| 0 <= j < i ==> (#[trigger] keys@[j])@ == day_key(events@[j]),
        decreases events@.len() - i,
    {
        keys.push(format_instant(events[i].timestamp, "%Y-%m-%d"));
        i += 1;
    }
    keys
}

/// Whether one of the first `n` keys is `d`.
pub open spec fn among_first(keys: Seq<String>, n: int, d: Seq<char>) -> bool {
    exists|j: int| 0 <= j < n && #[trigger] keys[j]@ == d
}

/// The distinct keys, sorted.
fn sorted_distinct(keys: &Vec<String>) -> (days: Vec<String>)
    ensures
        strictly_sorted(texts(days@)),
        forall|k: int| 0 <= k < days@.len() ==> among_first(keys@, keys@.len() as int, (#[trigger] days@[k])@),
        forall|i: int| 0 <= i < keys@.len() ==> texts(days@).contains(#[trigger] keys@[i]@),
{
    let mut days: Vec<String> = Vec::new();
    let mut i: usize = 0;
    while i < keys.len()
        invariant
            i <= keys@.len(),
            strictly_sorted(texts(days@)),
            forall|k: int| 0 <= k < days@.len() ==> among_first(keys@, i as int, (#[trigger] days@[k])@),
            forall|j: int| 0 <= j < i ==> texts(days@).contains(#[trigger] keys@[j]@),
        decreases keys@.len() - i,
    {
        let key = keys[i].as_str();
        let mut p: usize = 0;
        while p < days.len() && str_less(days[p].as_str(), key)
            invariant
                p <= days@.len(),
                forall|k: int| 0 <= k < p ==> text_less((#[trigger] days@[k])@, key@),
            decreases days@.len() - p,
        {
            p += 1;
        }
        let ghost old_days = days@;
        assert(strictly_sorted(texts(old_days)));
        if p < days.len() && str_equal(days[p].as_str(), key) {
            assert(texts(days@)[p as int] == key@);
        } else {
            proof {
                if p < old_days.len() {
                    lemma_text_less_total(old_days[p as int]@, key@);
                    assert(text_less(key@, old_days[p as int]@));
                }
                assert forall|k: int| p <= k < old_days.len() implies text_less(key@, #[trigger] old_days[k]@) by {
                    if k > p {
                        assert(text_less(texts(old_days)[p as int], texts(old_days)[k]));
                        lemma_text_less_transitive(key@, old_days[p as int]@, old_days[k]@);
                    }
                }
            }
            days.insert(p, keys[i].clone());
            proof {
                let nt = texts(days@);
                let ot = texts(old_days);
                assert(nt =~= ot.insert(p as int, key@));
                assert forall|a: int, b: int| 0 <= a < b < days@.len() implies text_less(
                    #[trigger] texts(days@)[a],
                    #[trigger] texts(days@)[b],
                ) by {
                    if b < p {
                        assert(text_less(ot[a], ot[b]));
                    } else if b == p {
                        assert(text_less(old_days[a]@, key@));
                    } else if a < p {
                        assert(text_less(key@, old_days[b - 1]@));
                        assert(text_less(old_days[a]@, key@));
                        lemma_text_less_transitive(old_days[a]@, key@, old_days[b - 1]@);
                    } else if a == p {
                        assert(text_less(key@, old_days[b - 1]@));
                    } else {
                        assert(text_less(ot[a - 1], ot[b - 1]));
                    }
                }
                assert forall|k: int| 0 <= k < days@.len() implies among_first(keys@, i + 1, (#[trigger] days@[k])@) by {
                    if k < p {
                        assert(days@[k] == old_days[k]);
                        assert(among_first(keys@, i as int, old_days[k]@));
                    } else if k == p {
                        assert(keys@[i as int]@ == days@[k]@);
                    } else {
                        assert(days@[k] == old_days[k - 1]);
                        assert(among_first(keys@, i as int, old_days[k - 1]@));
                    }
                }
                assert forall|j: int| 0 <= j < i implies texts(days@).contains(#[trigger] keys@[j]@) by {
                    let k = choose|k: int| 0 <= k < ot.len() && ot[k] == keys@[j]@;
                    if k < p {
                        assert(nt[k] == keys@[j]@);
                    } else {
                        assert(nt[k + 1] == keys@[j]@);
                    }
                }
                assert(nt[p as int] == key@);
            }
        }
        i += 1;
    }
    days
}

proof fn lemma_events_on_step(events: Seq<Event>, day: Seq<char>, i: int)
    requires
        0 <= i < events.len(),
    ensures
        events_on(events.subrange(0, i + 1), day) == (if day_key(events[i]) == day {
            events_on(events.subrange(0, i), day).push(events[i])
        } else {
            events_on(events.subrange(0, i), day)
        }),
{
    assert(events.subrange(0, i + 1).drop_last() =~= events.subrange(0, i));
}

proof fn lemma_events_on_len(events: Seq<Event>, day: Seq<char>)
    ensures
        events_on(events, day).len() <= events.len(),
    decreases events.len(),
{
    if events.len() > 0 {
        lemma_events_on_len(events.drop_last(), day);
    }
}

proof fn lemma_count_type_len(evs: Seq<Event>, t: Seq<char>)
    ensures
        count_type(evs, t) <= evs.len(),
    decreases evs.len(),
{
    if evs.len() > 0 {
        lemma_count_type_len(evs.drop_last(), t);
    }
}

proof fn lemma_absent_type_count(evs: Seq<Event>, t: Seq<char>)
    requires
        !distinct_types(evs).contains(t),
    ensures
        count_type(evs, t) == 0,
    decreases evs.len(),
{
    if evs.len() > 0 {
        let prev = distinct_types(evs.drop_last());
        if prev.contains(t) {
            let k = choose|k: int| 0 <= k < prev.len() && prev[k] == t;
            if !prev.contains(evs.last().event_type@) {
                assert(distinct_types(evs)[k] == t);
            }
        }
        lemma_absent_type_count(evs.drop_last(), t);
        if evs.last().event_type@ == t {
            if !prev.contains(t) {
                assert(distinct_types(evs)[prev.len() as int] == t);
            }
        }
    }
}

/// The actions of the events of one day, each with its count, and how many
/// events the day has.
fn day_actions(events: &[Event], keys: &Vec<String>, day: &str) -> (r: (Vec<String>, Vec<usize>, usize))
    requires
        keys@.len() == events@.len(),
        forall|i: int| 0 <= i < events@.len() ==> (#[trigger] keys@[i])@ == day_key(events@[i]),
    ensures
        texts(r.0@) == distinct_types(events_on(events@, day@)),
        r.1@.len() == r.0@.len(),
        forall|k: int| 0 <= k < r.1@.len() ==> #[trigger] r.1@[k] == count_type(events_on(events@, day@), r.0@[k]@),
        r.2 == events_on(events@, day@).len(),
{
    let mut types: Vec<String> = Vec::new();
    let mut counts: Vec<usize> = Vec::new();
    let mut n: usize = 0;
    let mut i: usize = 0;
    while i < events.len()
        invariant
            i <= events@.len(),
            keys@.len() == events@.len(),
            forall|j: int| 0 <= j < events@.len() ==> (#[trigger] keys@[j])@ == day_key(events@[j]),
            texts(types@) == distinct_types(events_on(events@.subrange(0, i as int), day@)),
            texts(types@).no_duplicates(),
            counts@.len() == types@.len(),
            forall|k: int| 0 <= k < counts@.len() ==> #[trigger] counts@[k] == count_type(events_on(events@.subrange(0, i as int), day@), types@[k]@),
            n == events_on(events@.subrange(0, i as int), day@).len(),
        decreases events@.len() - i,
    {
        let ghost evs = events_on(events@.subrange(0, i as int), day@);
        proof {
            lemma_events_on_step(events@, day@, i as int);
            lemma_events_on_len(events@.subrange(0, i as int), day@);
        }
        if str_equal(keys[i].as_str(), day) {
            let t = events[i].event_type.as_str();
            let ghost evs2 = evs.push(events@[i as int]);
            assert(evs2.drop_last() =~= evs);
            let mut k: usize = 0;
            while k < types.len() && !str_equal(types[k].as_str(), t)
                invariant
                    k <= types@.len(),
                    forall|m: int| 0 <= m < k ==> (#[trigger] types@[m])@ != t@,
                decreases types@.len() - k,
            {
                k += 1;
            }
            if k < types.len() {
                assert(texts(types@)[k as int] == t@);
                assert(distinct_types(evs).contains(t@));
                proof {
                    lemma_count_type_len(evs, t@);
                }
                let c = counts[k] + 1;
                counts.set(k, c);
                assert forall|m: int| 0 <= m < counts@.len() implies #[trigger] counts@[m] == count_type(evs2, types@[m]@) by {
                    if m != k {
                        assert(texts(types@)[m] != texts(types@)[k as int]);
                    }
                }
            } else {
                assert(!distinct_types(evs).contains(t@)) by {
                    if distinct_types(evs).contains(t@) {
                        let m = choose|m: int| 0 <= m < texts(types@).len() && texts(types@)[m] == t@;
                        assert(types@[m]@ == t@);
                    }
                }
                proof {
                    lemma_absent_type_count(evs, t@);
                }
                types.push(events[i].event_type.clone());
                counts.push(1);
                assert(texts(types@) =~= distinct_types(evs2));
                assert forall|m: int| 0 <= m < counts@.len() implies #[trigger] counts@[m] == count_type(evs2, types@[m]@) by {
                    if m < counts@.len() - 1 {
                        assert(types@[m]@ != t@) by {
                            assert(texts(types@)[m] == texts(types@.drop_last())[m]);
                        }
                    }
                }
            }
            n = n + 1;
        } else {
        }
        i += 1;
    }
    assert(events@.subrange(0, events@.len() as int) =~= events@);
    (types, counts, n)
}

proof fn lemma_action_summary_step(types: Seq<Seq<char>>, evs: Seq<Event>, k: int)
    requires
        0 <= k < types.len(),
    ensures
        action_summary(types.subrange(0, k + 1), evs) == (if k == 0 {
            action_part(types[0], evs)
        } else {
            action_summary(types.subrange(0, k), evs) + ", "@ + action_part(types[k], evs)
        }),
{
    assert(types.subrange(0, k + 1).drop_last() =~= types.subrange(0, k));
}

/// `act (xN), ...` for the actions of one day.
fn action_summary_text(types: &Vec<String>, counts: &Vec<usize>, Ghost(evs): Ghost<Seq<Event>>) -> (r: String)
    requires
        counts@.len() == types@.len(),
        forall|k: int| 0 <= k < counts@.len() ==> #[trigger] counts@[k] == count_type(evs, types@[k]@),
    ensures
        r@ == action_summary(texts(types@), evs),
{
    let mut out = String::new();
    let mut k: usize = 0;
    while k < types.len()
        invariant
            k <= types@.len(),
            counts@.len() == types@.len(),
            forall|m: int| 0 <= m < counts@.len() ==> #[trigger] counts@[m] == count_type(evs, types@[m]@),
            out@ == action_summary(texts(types@).subrange(0, k as int), evs),
        decreases types@.len() - k,
    {
        proof {
            lemma_action_summary_step(texts(types@), evs, k as int);
        }
        let mut part = types[k].clone();
        part.append(" (x");
        let c = usize_to_text(counts[k]);
        part.append(c.as_str());
        part.append(")");
        assert(part@ == action_part(texts(types@)[k as int], evs));
        if k == 0 {
            out = part;
        } else {
            out.append(", ");
            out.append(part.as_str());
            assert(out@ =~= action_summary(texts(types@).subrange(0, k as int), evs) + ", "@ + action_part(texts(types@)[k as int], evs));
        }
        k += 1;
    }
    assert(texts(types@).subrange(0, types@.len() as int) =~= texts(types@));
    out
}

proof fn lemma_phases_step(days: Seq<Seq<char>>, events: Seq<Event>, k: int)
    requires
        0 <= k < days.len(),
    ensures
        phases_text(days.subrange(0, k + 1), events) == phases_text(days.subrange(0, k), events)
            + phase_text(k + 1, days[k], events),
{
    assert(days.subrange(0, k + 1).drop_last() =~= days.subrange(0, k));
}

proof fn lemma_edge_lines_step(entity_id: u128, edges: Seq<Edge>, k: int)
    requires
        0 <= k < edges.len(),
    ensures
        edge_lines(entity_id, edges.subrange(0, k + 1)) == edge_lines(entity_id, edges.subrange(0, k))
            + edge_line(entity_id, edges[k]),
{
    assert(edges.subrange(0, k + 1).drop_last() =~= edges.subrange(0, k));
}

/// Each edge's line stands somewhere in the lines of all edges.
proof fn lemma_edge_line_within(entity_id: u128, edges: Seq<Edge>, k: int)
    requires
        0 <= k < edges.len(),
    ensures
        exists|i: int| #[trigger] occurs_at(edge_lines(entity_id, edges), edge_line(entity_id, edges[k]), i),
    decreases edges.len(),
{
    let prev = edges.drop_last();
    let before = edge_lines(entity_id, prev);
    let last = edge_line(entity_id, edges.last());
    assert(edge_lines(entity_id, edges) == before + last);
    if k == edges.len() - 1 {
        lemma_occurs_at_end(before, last);
        assert(occurs_at(edge_lines(entity_id, edges), edge_line(entity_id, edges[k]), before.len() as int));
    } else {
        lemma_edge_line_within(entity_id, prev, k);
        assert(prev[k] == edges[k]);
        let line = edge_line(entity_id, edges[k]);
        let i = choose|i: int| occurs_at(before, line, i);
        lemma_occurs_before(before, last, line, i);
        assert(occurs_at(edge_lines(entity_id, edges), line, i));
    }
}

/// Every relationship of the entity is reported on a line of its own that names
/// the relationship type, the entity's side ("Source -> Target" when the entity
/// is the source, "Target <- Source" otherwise), the day the relationship was
/// first seen and the day it was last seen, each written as `%Y-%m-%d`.
#[verifier::spinoff_prover]
#[verifier::rlimit(40)]
pub proof fn law_timeline_reports_each_relationship(
    entity: Entity,
    events: Seq<Event>,
    edges: Seq<Edge>,
    days: Seq<Seq<char>>,
    k: int,
)
    requires
        0 <= k < edges.len(),
    ensures
        edges[k].source_id == entity.id ==> exists|i: int|
            #[trigger] occurs_at(
                timeline_text(entity, events, edges, days),
                " • Relationship '"@ + edges[k].rel_type@ + "' (Source -> Target) | First seen: "@
                    + formatted_instant(edges[k].first_seen, "%Y-%m-%d"@) + " | Last seen: "@
                    + formatted_instant(edges[k].last_seen, "%Y-%m-%d"@) + "\n"@,
                i,
            ),
        edges[k].source_id != entity.id ==> exists|i: int|
            #[trigger] occurs_at(
                timeline_text(entity, events, edges, days),
                " • Relationship '"@ + edges[k].rel_type@ + "' (Target <- Source) | First seen: "@
                    + formatted_instant(edges[k].first_seen, "%Y-%m-%d"@) + " | Last seen: "@
                    + formatted_instant(edges[k].last_seen, "%Y-%m-%d"@) + "\n"@,
                i,
            ),
{
    let e = edges[k];
    let side = if e.source_id == entity.id {
        "' (Source -> Target) | First seen: "@
    } else {
        "' (Target <- Source) | First seen: "@
    };
    let line = " • Relationship '"@ + e.rel_type@ + side + formatted_instant(e.first_seen, "%Y-%m-%d"@)
        + " | Last seen: "@ + formatted_instant(e.last_seen, "%Y-%m-%d"@) + "\n"@;
    reveal_strlit("' (");
    reveal_strlit("Source -> Target");
    reveal_strlit("Target <- Source");
    reveal_strlit(") | First seen: ");
    reveal_strlit("' (Source -> Target) | First seen: ");
    reveal_strlit("' (Target <- Source) | First seen: ");
    assert(edge_line(entity.id, e) =~= line);
    lemma_edge_line_within(entity.id, edges, k);
    let i = choose|i: int| occurs_at(edge_lines(entity.id, edges), line, i);
    let head = report_rule() + " Behavioral Timeline: "@ + entity.canonical_name@ + " ("@
        + entity.entity_type@ + ")\n"@ + report_rule();
    let body = head + "Total Observed Events: "@ + int_text(events.len() as int) + "\n"@
        + "Active Timeline Windows: "@ + int_text(days.len() as int) + "\n\n"@
        + "Chronological Phases & Key Activities:\n"@ + phases_text(days, events);
    let front = body + "\nKnown Graph Relationships:\n"@;
    lemma_occurs_after(front, edge_lines(entity.id, edges), line, i);
    lemma_occurs_before(front + edge_lines(entity.id, edges), report_rule(), line, front.len() + i);
    assert(timeline_text(entity, events, edges, days) == front + edge_lines(entity.id, edges) + report_rule());
}

/// The paragraph of the `k`-th day stands in the paragraphs of all days.
proof fn lemma_phase_within(days: Seq<Seq<char>>, events: Seq<Event>, k: int)
    requires
        0 <= k < days.len(),
    ensures
        exists|i: int| #[trigger] occurs_at(phases_text(days, events), phase_text(k + 1, days[k], events), i),
    decreases days.len(),
{
    let prev = days.drop_last();
    let before = phases_text(prev, events);
    let last = phase_text(days.len() as int, days.last(), events);
    assert(phases_text(days, events) == before + last);
    if k == days.len() - 1 {
        lemma_occurs_at_end(before, last);
        assert(occurs_at(phases_text(days, events), phase_text(k + 1, days[k], events), before.len() as int));
    } else {
        lemma_phase_within(prev, events, k);
        assert(prev[k] == days[k]);
        let p = phase_text(k + 1, days[k], events);
        let i = choose|i: int| occurs_at(before, p, i);
        lemma_occurs_before(before, last, p, i);
        assert(occurs_at(phases_text(days, events), p, i));
    }
}

/// Each day with events gets a phase of the timeline, numbered from one in
/// increasing order of days: the `k`-th day (counted from zero) stands as
/// " Phase <k + 1>: [<day>] — <n> events", where `n` counts that day's events.
#[verifier::spinoff_prover]
#[verifier::rlimit(40)]
pub proof fn law_timeline_numbers_each_day(
    entity: Entity,
    events: Seq<Event>,
    edges: Seq<Edge>,
    days: Seq<Seq<char>>,
    k: int,
)
    requires
        day_order(events, days),
        0 <= k < days.len(),
    ensures
        exists|i: int|
            #[trigger] occurs_at(
                timeline_text(entity, events, edges, days),
                " Phase "@ + int_text(k + 1) + ": ["@ + days[k] + "] — "@ + int_text(
                    events_on(events, days[k]).len() as int,
                ) + " events\n"@,
                i,
            ),
{
    assert(has_event_on(events, days[k]));
    let head_line = " Phase "@ + int_text(k + 1) + ": ["@ + days[k] + "] — "@ + int_text(
        events_on(events, days[k]).len() as int,
    ) + " events\n"@;
    let evs = events_on(events, days[k]);
    let rest = "   Actions: "@ + action_summary(distinct_types(evs), evs) + "\n"@;
    let p = phase_text(k + 1, days[k], events);
    reveal_strlit(" events\n   Actions: ");
    reveal_strlit(" events\n");
    reveal_strlit("   Actions: ");
    assert(p =~= head_line + rest);
    lemma_occurs_at_end(Seq::empty(), head_line);
    lemma_occurs_before(Seq::<char>::empty() + head_line, rest, head_line, 0);
    assert(Seq::<char>::empty() + head_line + rest =~= p);
    lemma_phase_within(days, events, k);
    let i = choose|i: int| occurs_at(phases_text(days, events), p, i);
    lemma_occurs_nested(phases_text(days, events), p, head_line, i, 0);
    let head = report_rule() + " Behavioral Timeline: "@ + entity.canonical_name@ + " ("@
        + entity.entity_type@ + ")\n"@ + report_rule();
    let front = head + "Total Observed Events: "@ + int_text(events.len() as int) + "\n"@
        + "Active Timeline Windows: "@ + int_text(days.len() as int) + "\n\n"@
        + "Chronological Phases & Key Activities:\n"@;
    lemma_occurs_after(front, phases_text(days, events), head_line, i);
    let body = front + phases_text(days, events);
    let tail = if edges.len() > 0 {
        "\nKnown Graph Relationships:\n"@ + edge_lines(entity.id, edges) + report_rule()
    } else {
        report_rule()
    };
    lemma_occurs_before(body, tail, head_line, front.len() + i);
    assert(timeline_text(entity, events, edges, days) =~= body + tail);
}

/// Timelines of entities.
pub struct TimelineGenerator;

impl TimelineGenerator {
    /// The narrative of an entity's history: its events grouped by day, days in
    /// increasing order, each with its count and its actions (each action with
    /// its count, in the order of its first event that day), then the entity's
    /// relationships. An entity without events or relationships gets one line.
    #[verifier::spinoff_prover]
    #[verifier::rlimit(40)]
    pub fn build_timeline(entity: &Entity, events: &[Event], edges: &[Edge]) -> (r: String)
        requires
            forall|i: int| 0 <= i < events@.len() ==> (#[trigger] events@[i]).timestamp.valid(),
            forall|i: int| 0 <= i < edges@.len() ==> (#[trigger] edges@[i]).first_seen.valid()
                && edges@[i].last_seen.valid(),
        ensures
            exists|days: Seq<Seq<char>>| day_order(events@, days) && r@ == timeline_text(*entity, events@, edges@, days),
    {
        let mut out = "========================================\n".to_owned();
        out.append(" Behavioral Timeline: ");
        out.append(entity.canonical_name.as_str());
        out.append(" (");
        out.append(entity.entity_type.as_str());
        out.append(")\n");
        out.append("========================================\n");
        let keys = day_keys_of(events);
        let days = sorted_distinct(&keys);
        proof {
            assert forall|k: int| 0 <= k < texts(days@).len() implies has_event_on(events@, #[trigger] texts(days@)[k]) by {
                assert(among_first(keys@, keys@.len() as int, days@[k]@));
                let j = choose|j: int| 0 <= j < keys@.len() && #[trigger] keys@[j]@ == days@[k]@;
                assert(day_key(events@[j]) == texts(days@)[k]);
            }
            assert forall|i: int| 0 <= i < events@.len() implies texts(days@).contains(#[trigger] day_key(events@[i])) by {
                assert(texts(days@).contains(keys@[i]@));
            }
        }
        let ghost ds = texts(days@);
        assert(day_order(events@, ds));
        if events.len() == 0 && edges.len() == 0 {
            out.append("No recorded behavioral history for this entity.\n");
            assert(out@ == timeline_text(*entity, events@, edges@, ds));
            return out;
        }
        out.append("Total Observed Events: ");
        let n_events = usize_to_text(events.len());
        out.append(n_events.as_str());
        out.append("\n");
        out.append("Active Timeline Windows: ");
        let n_days = usize_to_text(days.len());
        out.append(n_days.as_str());
        out.append("\n\n");
        out.append("Chronological Phases & Key Activities:\n");
        let ghost before = out@;
        let mut d: usize = 0;
        while d < days.len()
            invariant
                d <= days@.len(),
                ds == texts(days@),
                keys@.len() == events@.len(),
                forall|j: int| 0 <= j < events@.len() ==> (#[trigger] keys@[j])@ == day_key(events@[j]),
                out@ == before + phases_text(ds.subrange(0, d as int), events@),
            decreases days@.len() - d,
        {
            let day = days[d].as_str();
            let (types, counts, n) = day_actions(events, &keys, day);
            let summary = action_summary_text(&types, &counts, Ghost(events_on(events@, day@)));
            let mut line = " Phase ".to_owned();
            let rank = usize_to_text(d + 1);
            line.append(rank.as_str());
            line.append(": [");
            line.append(day);
            line.append("] — ");
            let n_text = usize_to_text(n);
            line.append(n_text.as_str());
            line.append(" events\n   Actions: ");
            line.append(summary.as_str());
            line.append("\n");
            assert(line@ == phase_text(d + 1, ds[d as int], events@));
            proof {
                lemma_phases_step(ds, events@, d as int);
            }
            out.append(line.as_str());
            assert(out@ =~= before + phases_text(ds.subrange(0, d + 1), events@));
            d += 1;
        }
        assert(ds.subrange(0, ds.len() as int) =~= ds);
        if edges.len() > 0 {
            out.append("\nKnown Graph Relationships:\n");
            let ghost before = out@;
            let mut k: usize = 0;
            while k < edges.len()
                invariant
                    k <= edges@.len(),
                    forall|i: int| 0 <= i < edges@.len() ==> (#[trigger] edges@[i]).first_seen.valid()
                        && edges@[i].last_seen.valid(),
                    out@ == before + edge_lines(entity.id, edges@.subrange(0, k as int)),
                decreases edges@.len() - k,
            {
                let edge = &edges[k];
                let mut line = " • Relationship '".to_owned();
                line.append(edge.rel_type.as_str());
                line.append("' (");
                if edge.source_id == entity.id {
                    line.append("Source -> Target");
                } else {
                    line.append("Target <- Source");
                }
                line.append(") | First seen: ");
                let first = format_instant(edge.first_seen, "%Y-%m-%d");
                line.append(first.as_str());
                line.append(" | Last seen: ");
                let last = format_instant(edge.last_seen, "%Y-%m-%d");
                line.append(last.as_str());
                line.append("\n");
                assert(line@ == edge_line(entity.id, edges@[k as int]));
                proof {
                    lemma_edge_lines_step(entity.id, edges@, k as int);
                }
                out.append(line.as_str());
                assert(out@ =~= before + edge_lines(entity.id, edges@.subrange(0, k + 1)));
                k += 1;
            }
            assert(edges@.subrange(0, edges@.len() as int) =~= edges@);
        }
        out.append("========================================\n");
        assert(out@ == timeline_text(*entity, events@, edges@, ds));
        out
    }
}

proof fn lemma_sorted_same_contents(a: Seq<Seq<char>>, b: Seq<Seq<char>>)
    requires
        strictly_sorted(a),
        strictly_sorted(b),
        forall|x: Seq<char>| a.contains(x) <==> b.contains(x),
    ensures
        a == b,
    decreases a.len(),
{
    if a.len() == 0 {
        if b.len() > 0 {
            assert(b.contains(b[0]));
        }
        assert(a =~= b);
    } else if b.len() == 0 {
        assert(a.contains(a[0]));
    } else {
        assert(a.contains(a[0]));
        assert(b.contains(b[0]));
        let j = choose|j: int| 0 <= j < b.len() && b[j] == a[0];
        let i = choose|i: int| 0 <= i < a.len() && a[i] == b[0];
        if j > 0 && i > 0 {
            assert(text_less(b[0], b[j]));
            assert(text_less(a[0], a[i]));
            lemma_text_less_asymmetric(a[0], b[0]);
        }
        let a1 = a.drop_first();
        let b1 = b.drop_first();
        assert forall|x: Seq<char>| a1.contains(x) <==> b1.contains(x) by {
            if a1.contains(x) {
                let k = choose|k: int| 0 <= k < a1.len() && a1[k] == x;
                assert(text_less(a[0], a[k + 1]));
                lemma_text_less_irreflexive(a[0]);
                assert(b.contains(x));
                let m = choose|m: int| 0 <= m < b.len() && b[m] == x;
                assert(m != 0);
                assert(b1[m - 1] == x);
            }
            if b1.contains(x) {
                let k = choose|k: int| 0 <= k < b1.len() && b1[k] == x;
                assert(text_less(b[0], b[k + 1]));
                lemma_text_less_irreflexive(b[0]);
                assert(a.contains(x));
                let m = choose|m: int| 0 <= m < a.len() && a[m] == x;
                assert(m != 0);
                assert(a1[m - 1] == x);
            }
        }
        assert(strictly_sorted(a1)) by {
            assert forall|p: int, q: int| 0 <= p < q < a1.len() implies text_less(#[trigger] a1[p], #[trigger] a1[q]) by {
                assert(text_less(a[p + 1], a[q + 1]));
            }
        }
        assert(strictly_sorted(b1)) by {
            assert forall|p: int, q: int| 0 <= p < q < b1.len() implies text_less(#[trigger] b1[p], #[trigger] b1[q]) by {
                assert(text_less(b[p + 1], b[q + 1]));
            }
        }
        lemma_sorted_same_contents(a1, b1);
        assert(a =~= b) by {
            assert forall|k: int| 0 <= k < a.len() implies a[k] == b[k] by {
                if k > 0 {
                    assert(a[k] == a1[k - 1]);
                    assert(b[k] == b1[k - 1]);
                }
            }
        }
    }
}

/// The days of a timeline are determined by its events: two orderings of the
/// days of the same events are the same, so `build_timeline` writes one text
/// for given events and edges.
pub proof fn law_day_order_unique(events: Seq<Event>, days1: Seq<Seq<char>>, days2: Seq<Seq<char>>)
    requires
        day_order(events, days1),
        day_order(events, days2),
    ensures
        days1 == days2,
{
    assert forall|x: Seq<char>| days1.contains(x) <==> days2.contains(x) by {
        if days1.contains(x) {
            let k = choose|k: int| 0 <= k < days1.len() && days1[k] == x;
            assert(has_event_on(events, days1[k]));
            let i = choose|i: int| 0 <= i < events.len() && #[trigger] day_key(events[i]) == x;
            assert(days2.contains(day_key(events[i])));
        }
        if days2.contains(x) {
            let k = choose|k: int| 0 <= k < days2.len() && days2[k] == x;
            assert(has_event_on(events, days2[k]));
            let i = choose|i: int| 0 <= i < events.len() && #[trigger] day_key(events[i]) == x;
            assert(days1.contains(day_key(events[i])));
        }
    }
    lemma_sorted_same_contents(days1, days2);
}

/// The number of events of each of `days`, added up.
pub open spec fn day_counts(days: Seq<Seq<char>>, events: Seq<Event>) -> nat
    decreases days.len(),
{
    if days.len() == 0 {
        0
    } else {
        day_counts(days.drop_last(), events) + events_on(events, days.last()).len()
    }
}

/// How many of `days` are `k`.
spec fn occurrences(days: Seq<Seq<char>>, k: Seq<char>) -> nat
    decreases days.len(),
{
    if days.len() == 0 {
        0
    } else {
        occurrences(days.drop_last(), k) + if days.last() == k {
            1nat
        } else {
            0nat
        }
    }
}

proof fn lemma_day_counts_push(days: Seq<Seq<char>>, events: Seq<Event>, e: Event)
    ensures
        day_counts(days, events.push(e)) == day_counts(days, events) + occurrences(days, day_key(e)),
    decreases days.len(),
{
    assert(events.push(e).drop_last() =~= events);
    if days.len() > 0 {
        lemma_day_counts_push(days.drop_last(), events, e);
    }
}

proof fn lemma_occurrences_absent(days: Seq<Seq<char>>, k: Seq<char>)
    requires
        !days.contains(k),
    ensures
        occurrences(days, k) == 0,
    decreases days.len(),
{
    if days.len() > 0 {
        assert(days.last() == days[days.len() - 1]);
        assert forall|i: int| 0 <= i < days.drop_last().len() implies days.drop_last()[i] != k by {
            assert(days.drop_last()[i] == days[i]);
        }
        lemma_occurrences_absent(days.drop_last(), k);
    }
}

proof fn lemma_occurrences_once(days: Seq<Seq<char>>, k: Seq<char>)
    requires
        strictly_sorted(days),
        days.contains(k),
    ensures
        occurrences(days, k) == 1,
    decreases days.len(),
{
    let front = days.drop_last();
    assert(strictly_sorted(front)) by {
        assert forall|p: int, q: int| 0 <= p < q < front.len() implies text_less(#[trigger] front[p], #[trigger] front[q]) by {
            assert(text_less(days[p], days[q]));
        }
    }
    if days.last() == k {
        assert forall|i: int| 0 <= i < front.len() implies front[i] != k by {
            assert(text_less(days[i], days[days.len() - 1]));
            lemma_text_less_irreflexive(k);
        }
        lemma_occurrences_absent(front, k);
    } else {
        let i = choose|i: int| 0 <= i < days.len() && days[i] == k;
        assert(i != days.len() - 1);
        assert(front[i] == k);
        lemma_occurrences_once(front, k);
    }
}

proof fn lemma_day_counts_cover(days: Seq<Seq<char>>, events: Seq<Event>)
    requires
        strictly_sorted(days),
        forall|i: int| 0 <= i < events.len() ==> days.contains(#[trigger] day_key(events[i])),
    ensures
        day_counts(days, events) == events.len(),
    decreases events.len(),
{
    if events.len() == 0 {
        lemma_day_counts_empty(days);
        assert(events =~= Seq::<Event>::empty());
    } else {
        let prev = events.drop_last();
        assert forall|i: int| 0 <= i < prev.len() implies days.contains(#[trigger] day_key(prev[i])) by {
            assert(prev[i] == events[i]);
        }
        lemma_day_counts_cover(days, prev);
        assert(days.contains(day_key(events[events.len() - 1])));
        lemma_occurrences_once(days, day_key(events.last()));
        assert(prev.push(events.last()) =~= events);
        lemma_day_counts_push(days, prev, events.last());
        assert(day_counts(days, prev.push(events.last())) == prev.len() + 1);
    }
}

proof fn lemma_day_counts_empty(days: Seq<Seq<char>>)
    ensures
        day_counts(days, Seq::empty()) == 0,
    decreases days.len(),
{
    if days.len() > 0 {
        lemma_day_counts_empty(days.drop_last());
    }
}

/// The phases of a timeline share out its events: the per-day counts add up to
/// the total number of events.
pub proof fn law_phases_cover_events(events: Seq<Event>, days: Seq<Seq<char>>)
    requires
        day_order(events, days),
    ensures
        day_counts(days, events) == events.len(),
{
    lemma_day_counts_cover(days, events);
}

} // verus!
