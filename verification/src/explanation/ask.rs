//! Answers to questions about the behaviour graph, grounded in its findings.
use crate::detection::observations::{BehaviorObservation, MostChangedEntity};
use crate::domain::Entity;
use crate::explanation::templates::report_rule;
use crate::text::{contains_str, contains_text, int_text, lowercase_str, unicode_lowercase, usize_to_text};
use vstd::prelude::*;

verus! {

/// Whether a question asks about changes: its lower case mentions a change,
/// what happened, or an anomaly.
pub open spec fn asks_about_change(query: Seq<char>) -> bool {
    let q = unicode_lowercase(query);
    contains_text(q, "change"@) || contains_text(q, "what happened"@) || contains_text(q, "anomaly"@)
}

/// The line of one changed entity in an answer.
pub open spec fn answer_changed_line(item: MostChangedEntity) -> Seq<char> {
    " • "@ + item.canonical_name@ + " ("@ + item.entity_type@ + "): Change Score "@
        + item.combined_change_score@ + " (Drift: "@ + item.drift_score@ + ", Anomaly: "@
        + item.anomaly_score@ + ")\n"@
}

pub open spec fn answer_changed_lines(items: Seq<MostChangedEntity>) -> Seq<char>
    decreases items.len(),
{
    if items.len() == 0 {
        Seq::empty()
    } else {
        answer_changed_lines(items.drop_last()) + answer_changed_line(items.last())
    }
}

/// The line of one finding in an answer: its kind, entity and description.
pub open spec fn answer_observation_line(obs: BehaviorObservation) -> Seq<char> {
    " • ["@ + obs.category.spec_name() + "] "@ + obs.entity_canonical_name@ + ": "@
        + obs.description@ + "\n"@
}

pub open spec fn answer_observation_lines(obs: Seq<BehaviorObservation>) -> Seq<char>
    decreases obs.len(),
{
    if obs.len() == 0 {
        Seq::empty()
    } else {
        answer_observation_lines(obs.drop_last()) + answer_observation_line(obs.last())
    }
}

/// The line of one entity in the roster.
pub open spec fn roster_line(e: Entity) -> Seq<char> {
    " • "@ + e.canonical_name@ + " ("@ + e.entity_type@ + ")\n"@
}

pub open spec fn roster_lines(entities: Seq<Entity>) -> Seq<char>
    decreases entities.len(),
{
    if entities.len() == 0 {
        Seq::empty()
    } else {
        roster_lines(entities.drop_last()) + roster_line(entities.last())
    }
}

/// The head of an answer, which repeats the question.
pub open spec fn answer_header(query: Seq<char>) -> Seq<char> {
    report_rule() + " Lafufu Conversational Query Response\n"@ + " Query: \""@ + query + "\"\n"@
        + "========================================\n\n"@
}

/// What `answer_question` writes: for a question about changes, the entities that
/// changed most and the findings of the past week; for any other question, the
/// roster of all entities.
pub open spec fn answer_text(
    query: Seq<char>,
    entities: Seq<Entity>,
    obs: Seq<BehaviorObservation>,
    changed: Seq<MostChangedEntity>,
) -> Seq<char> {
    let head = answer_header(query);
    let body = if asks_about_change(query) {
        let intro = head + "Based on behavior graph evidence for the past 7 days:\n\n"@;
        if obs.len() == 0 && changed.len() == 0 {
            intro
                + "No significant behavioral changes or anomalies detected across any active entity baselines.\n"@
        } else {
            let with_changed = if changed.len() > 0 {
                intro + "Entities with highest behavioral change:\n"@ + answer_changed_lines(changed)
                    + "\n"@
            } else {
                intro
            };
            if obs.len() > 0 {
                with_changed + "Key Behavioral Observations:\n"@ + answer_observation_lines(obs)
            } else {
                with_changed
            }
        }
    } else {
        head + "Tracking "@ + int_text(entities.len() as int)
            + " total entities in the local behavior graph.\n\n"@ + "Active Entity Roster:\n"@
            + roster_lines(entities)
    };
    body + "\n========================================\n"@
}

/// A question whose lower case mentions a change, what happened, or an anomaly is
/// answered from the evidence of the past week, never with the roster: after the
/// head comes "Based on behavior graph evidence for the past 7 days:", and when
/// there are findings the answer closes with "Key Behavioral Observations:" and
/// one line per finding.
#[verifier::spinoff_prover]
pub proof fn law_change_questions_get_findings(
    query: Seq<char>,
    entities: Seq<Entity>,
    obs: Seq<BehaviorObservation>,
    changed: Seq<MostChangedEntity>,
)
    requires
        contains_text(unicode_lowercase(query), "change"@) || contains_text(
            unicode_lowercase(query),
            "what happened"@,
        ) || contains_text(unicode_lowercase(query), "anomaly"@),
    ensures
        exists|rest: Seq<char>|
            answer_text(query, entities, obs, changed) == #[trigger] (answer_header(query)
                + "Based on behavior graph evidence for the past 7 days:\n\n"@ + rest),
        obs.len() > 0 ==> exists|mid: Seq<char>|
            answer_text(query, entities, obs, changed) == #[trigger] (mid
                + "Key Behavioral Observations:\n"@ + answer_observation_lines(obs)
                + "\n========================================\n"@),
{
    let head = answer_header(query);
    let intro = head + "Based on behavior graph evidence for the past 7 days:\n\n"@;
    let tail = "\n========================================\n"@;
    let whole = answer_text(query, entities, obs, changed);
    let with_changed = if changed.len() > 0 {
        intro + "Entities with highest behavioral change:\n"@ + answer_changed_lines(changed) + "\n"@
    } else {
        intro
    };
    if obs.len() == 0 && changed.len() == 0 {
        let rest = "No significant behavioral changes or anomalies detected across any active entity baselines.\n"@
            + tail;
        assert(whole =~= intro + rest);
    } else {
        let body = if obs.len() > 0 {
            with_changed + "Key Behavioral Observations:\n"@ + answer_observation_lines(obs)
        } else {
            with_changed
        };
        assert(whole == body + tail);
        let rest = body.skip(intro.len() as int) + tail;
        assert(body =~= intro + body.skip(intro.len() as int));
        assert(whole =~= intro + rest);
        if obs.len() > 0 {
            assert(whole =~= with_changed + "Key Behavioral Observations:\n"@ + answer_observation_lines(obs)
                + tail);
        }
    }
}

/// A question that mentions no change, nothing that happened and no anomaly is
/// answered with the roster: after the head comes "Tracking <n> total entities in
/// the local behavior graph.", then "Active Entity Roster:" and one line per entity.
pub proof fn law_other_questions_get_roster(
    query: Seq<char>,
    entities: Seq<Entity>,
    obs: Seq<BehaviorObservation>,
    changed: Seq<MostChangedEntity>,
)
    requires
        !contains_text(unicode_lowercase(query), "change"@),
        !contains_text(unicode_lowercase(query), "what happened"@),
        !contains_text(unicode_lowercase(query), "anomaly"@),
    ensures
        answer_text(query, entities, obs, changed) == answer_header(query) + "Tracking "@ + int_text(
            entities.len() as int,
        ) + " total entities in the local behavior graph.\n\n"@ + "Active Entity Roster:\n"@
            + roster_lines(entities) + "\n========================================\n"@,
{
}

/// Answers questions in natural language.
pub struct ConversationalQueryEngine;

impl ConversationalQueryEngine {
    /// The answer to `query`, given the entities of the graph, the findings of
    /// the past week and the entities that changed most.
    pub fn answer_question(
        query: &str,
        entities: &[Entity],
        observations: &[BehaviorObservation],
        most_changed: &[MostChangedEntity],
    ) -> (r: String)
        ensures
            r@ == answer_text(query@, entities@, observations@, most_changed@),
    {
        let query_lower = lowercase_str(query);
        let mut out = "========================================\n".to_owned();
        out.append(" Lafufu Conversational Query Response\n");
        out.append(" Query: \"");
        out.append(query);
        out.append("\"\n");
        out.append("========================================\n\n");
        assert(out@ == answer_header(query@));
        let q = query_lower.as_str();
        if contains_str(q, "change") || contains_str(q, "what happened") || contains_str(q, "anomaly") {
            out.append("Based on behavior graph evidence for the past 7 days:\n\n");
            if observations.len() == 0 && most_changed.len() == 0 {
                out.append(
                    "No significant behavioral changes or anomalies detected across any active entity baselines.\n",
                );
            } else {
                if most_changed.len() > 0 {
                    out.append("Entities with highest behavioral change:\n");
                    let ghost before = out@;
                    let mut i: usize = 0;
                    while i < most_changed.len()
                        invariant
                            i <= most_changed@.len(),
                            out@ == before + answer_changed_lines(most_changed@.subrange(0, i as int)),
                        decreases most_changed@.len() - i,
                    {
                        let item = &most_changed[i];
                        let mut line = " • ".to_owned();
                        line.append(item.canonical_name.as_str());
                        line.append(" (");
                        line.append(item.entity_type.as_str());
                        line.append("): Change Score ");
                        line.append(item.combined_change_score.as_str());
                        line.append(" (Drift: ");
                        line.append(item.drift_score.as_str());
                        line.append(", Anomaly: ");
                        line.append(item.anomaly_score.as_str());
                        line.append(")\n");
                        assert(most_changed@.subrange(0, i + 1).drop_last() =~= most_changed@.subrange(0, i as int));
                        out.append(line.as_str());
                        assert(out@ =~= before + answer_changed_lines(most_changed@.subrange(0, i + 1)));
                        i += 1;
                    }
                    assert(most_changed@.subrange(0, most_changed@.len() as int) =~= most_changed@);
                    out.append("\n");
                }
                if observations.len() > 0 {
                    out.append("Key Behavioral Observations:\n");
                    let ghost before = out@;
                    let mut i: usize = 0;
                    while i < observations.len()
                        invariant
                            i <= observations@.len(),
                            out@ == before + answer_observation_lines(observations@.subrange(0, i as int)),
                        decreases observations@.len() - i,
                    {
                        let obs = &observations[i];
                        let mut line = " • [".to_owned();
                        line.append(obs.category.name());
                        line.append("] ");
                        line.append(obs.entity_canonical_name.as_str());
                        line.append(": ");
                        line.append(obs.description.as_str());
                        line.append("\n");
                        assert(observations@.subrange(0, i + 1).drop_last() =~= observations@.subrange(0, i as int));
                        out.append(line.as_str());
                        assert(out@ =~= before + answer_observation_lines(observations@.subrange(0, i + 1)));
                        i += 1;
                    }
                    assert(observations@.subrange(0, observations@.len() as int) =~= observations@);
                }
            }
        } else {
            out.append("Tracking ");
            let n = usize_to_text(entities.len());
            out.append(n.as_str());
            out.append(" total entities in the local behavior graph.\n\n");
            out.append("Active Entity Roster:\n");
            let ghost before = out@;
            let mut i: usize = 0;
            while i < entities.len()
                invariant
                    i <= entities@.len(),
                    out@ == before + roster_lines(entities@.subrange(0, i as int)),
                decreases entities@.len() - i,
            {
                let e = &entities[i];
                let mut line = " • ".to_owned();
                line.append(e.canonical_name.as_str());
                line.append(" (");
                line.append(e.entity_type.as_str());
                line.append(")\n");
                assert(entities@.subrange(0, i + 1).drop_last() =~= entities@.subrange(0, i as int));
                out.append(line.as_str());
                assert(out@ =~= before + roster_lines(entities@.subrange(0, i + 1)));
                i += 1;
            }
            assert(entities@.subrange(0, entities@.len() as int) =~= entities@);
        }
        out.append("\n========================================\n");
        out
    }
}

} // verus!
