//! Sentence templates that turn findings into grounded natural language.
use crate::detection::observations::{BehaviorObservation, MostChangedEntity, ObservationCategory};
use crate::text::{int_text, lemma_occurs_after, lemma_occurs_at_end, lemma_occurs_before, occurs_at, usize_to_text};
use crate::time::{format_instant, formatted_instant};
use vstd::prelude::*;

verus! {

/// The rule that frames the reports.
pub open spec fn report_rule() -> Seq<char> {
    "========================================\n"@
}

/// What `format_observation` writes for one finding.
pub open spec fn observation_text(obs: BehaviorObservation) -> Seq<char> {
    let at = formatted_instant(obs.timestamp, "%Y-%m-%d %H:%M:%S UTC"@);
    let name = obs.entity_canonical_name@;
    match obs.category {
        ObservationCategory::NewBehavior => "At "@ + at + ", entity '"@ + name
            + "' exhibited a brand new behavior ('"@ + obs.title@ + "'). Anomaly score: "@
            + obs.anomaly_score@ + ". "@ + obs.description@,
        ObservationCategory::BehaviorDrift => "Entity '"@ + name
            + "' shows significant behavioral drift (drift score: "@ + obs.anomaly_score@
            + "). "@ + obs.description@,
        ObservationCategory::SuddenAnomaly => "At "@ + at + ", entity '"@ + name
            + "' triggered a sudden behavioral anomaly ('"@ + obs.title@ + "'). Score: "@
            + obs.anomaly_score@ + ". "@ + obs.description@,
        ObservationCategory::StableBehavior => "Entity '"@ + name
            + "' maintains stable, expected behavior patterns across baselines."@,
    }
}

/// The ranked line of one changed entity.
pub open spec fn changed_line(rank: int, item: MostChangedEntity) -> Seq<char> {
    "   "@ + int_text(rank) + ". "@ + item.canonical_name@ + " ("@ + item.entity_type@
        + ") — Change Score: "@ + item.combined_change_score@ + " (Drift: "@ + item.drift_score@
        + ", Anomaly: "@ + item.anomaly_score@ + ")\n"@
}

/// The ranked lines of the changed entities, numbered from one.
pub open spec fn changed_lines(items: Seq<MostChangedEntity>) -> Seq<char>
    decreases items.len(),
{
    if items.len() == 0 {
        Seq::empty()
    } else {
        changed_lines(items.drop_last()) + changed_line(items.len() as int, items.last())
    }
}

/// The bulleted lines of the findings.
pub open spec fn observation_lines(obs: Seq<BehaviorObservation>) -> Seq<char>
    decreases obs.len(),
{
    if obs.len() == 0 {
        Seq::empty()
    } else {
        observation_lines(obs.drop_last()) + ("   • "@ + observation_text(obs.last()) + "\n"@)
    }
}

/// The head of the briefing, up to the executive summary's title.
pub open spec fn briefing_header(window: Seq<char>) -> Seq<char> {
    report_rule() + " Lafufu Behavioral Intelligence Briefing\n"@ + " Window: "@ + window + "\n"@
        + "========================================\n\n"@ + "1. Executive Summary:\n"@
}

/// What `format_daily_briefing` writes.
pub open spec fn briefing_text(
    window: Seq<char>,
    obs: Seq<BehaviorObservation>,
    changed: Seq<MostChangedEntity>,
) -> Seq<char> {
    if obs.len() == 0 && changed.len() == 0 {
        briefing_header(window)
            + "   All tracked entities show consistent, stable behavior. No anomalous drift or unexpected events observed.\n\n"@
    } else {
        let summary = briefing_header(window) + "   Observed "@ + int_text(obs.len() as int)
            + " behavioral changes requiring review. "@ + int_text(changed.len() as int)
            + " entities showed significant profile drift.\n\n"@;
        let with_changed = if changed.len() > 0 {
            summary + "2. Top Entities With Significant Behavioral Change:\n"@ + changed_lines(changed)
                + "\n"@
        } else {
            summary
        };
        let with_obs = if obs.len() > 0 {
            with_changed + "3. Key Observations & Findings:\n"@ + observation_lines(obs) + "\n"@
        } else {
            with_changed
        };
        with_obs + report_rule()
    }
}

proof fn lemma_changed_lines_step(items: Seq<MostChangedEntity>, i: int)
    requires
        0 <= i < items.len(),
    ensures
        changed_lines(items.subrange(0, i + 1)) == changed_lines(items.subrange(0, i))
            + changed_line(i + 1, items[i]),
{
    assert(items.subrange(0, i + 1).drop_last() =~= items.subrange(0, i));
}

proof fn lemma_observation_lines_step(obs: Seq<BehaviorObservation>, i: int)
    requires
        0 <= i < obs.len(),
    ensures
        observation_lines(obs.subrange(0, i + 1)) == observation_lines(obs.subrange(0, i)) + (
        "   • "@ + observation_text(obs[i]) + "\n"@),
{
    assert(obs.subrange(0, i + 1).drop_last() =~= obs.subrange(0, i));
}

/// The line of the `k`-th changed entity stands in the ranked lines.
proof fn lemma_changed_line_within(items: Seq<MostChangedEntity>, k: int)
    requires
        0 <= k < items.len(),
    ensures
        exists|i: int| #[trigger] occurs_at(changed_lines(items), changed_line(k + 1, items[k]), i),
    decreases items.len(),
{
    let prev = items.drop_last();
    let before = changed_lines(prev);
    let last = changed_line(items.len() as int, items.last());
    assert(changed_lines(items) == before + last);
    if k == items.len() - 1 {
        lemma_occurs_at_end(before, last);
        assert(occurs_at(changed_lines(items), changed_line(k + 1, items[k]), before.len() as int));
    } else {
        lemma_changed_line_within(prev, k);
        assert(prev[k] == items[k]);
        let line = changed_line(k + 1, items[k]);
        let i = choose|i: int| occurs_at(before, line, i);
        lemma_occurs_before(before, last, line, i);
        assert(occurs_at(changed_lines(items), line, i));
    }
}

/// The line of the `k`-th finding stands in the bulleted lines.
proof fn lemma_observation_line_within(obs: Seq<BehaviorObservation>, k: int)
    requires
        0 <= k < obs.len(),
    ensures
        exists|i: int| #[trigger] occurs_at(observation_lines(obs), "   • "@ + observation_text(obs[k]) + "\n"@, i),
    decreases obs.len(),
{
    let prev = obs.drop_last();
    let before = observation_lines(prev);
    let last = "   • "@ + observation_text(obs.last()) + "\n"@;
    assert(observation_lines(obs) == before + last);
    if k == obs.len() - 1 {
        lemma_occurs_at_end(before, last);
        assert(occurs_at(observation_lines(obs), "   • "@ + observation_text(obs[k]) + "\n"@, before.len() as int));
    } else {
        lemma_observation_line_within(prev, k);
        assert(prev[k] == obs[k]);
        let line = "   • "@ + observation_text(obs[k]) + "\n"@;
        let i = choose|i: int| occurs_at(before, line, i);
        lemma_occurs_before(before, last, line, i);
        assert(occurs_at(observation_lines(obs), line, i));
    }
}

/// The briefing ranks the changed entities from one, in the order given: the
/// `k`-th (counted from zero) stands on a line of its own as `k + 1`, with its
/// name, type, change score, drift and anomaly scores.
#[verifier::spinoff_prover]
pub proof fn law_briefing_ranks_changed_entities(
    window: Seq<char>,
    obs: Seq<BehaviorObservation>,
    changed: Seq<MostChangedEntity>,
    k: int,
)
    requires
        0 <= k < changed.len(),
    ensures
        exists|i: int|
            #[trigger] occurs_at(
                briefing_text(window, obs, changed),
                "   "@ + int_text(k + 1) + ". "@ + changed[k].canonical_name@ + " ("@ + changed[k].entity_type@
                    + ") — Change Score: "@ + changed[k].combined_change_score@ + " (Drift: "@
                    + changed[k].drift_score@ + ", Anomaly: "@ + changed[k].anomaly_score@ + ")\n"@,
                i,
            ),
{
    let line = changed_line(k + 1, changed[k]);
    lemma_changed_line_within(changed, k);
    let i = choose|i: int| occurs_at(changed_lines(changed), line, i);
    let summary = briefing_header(window) + "   Observed "@ + int_text(obs.len() as int)
        + " behavioral changes requiring review. "@ + int_text(changed.len() as int)
        + " entities showed significant profile drift.\n\n"@;
    let front = summary + "2. Top Entities With Significant Behavioral Change:\n"@;
    let with_changed = front + changed_lines(changed) + "\n"@;
    lemma_occurs_after(front, changed_lines(changed), line, i);
    lemma_occurs_before(front + changed_lines(changed), "\n"@, line, front.len() + i);
    let tail = if obs.len() > 0 {
        "3. Key Observations & Findings:\n"@ + observation_lines(obs) + "\n"@ + report_rule()
    } else {
        report_rule()
    };
    lemma_occurs_before(with_changed, tail, line, front.len() + i);
    assert(briefing_text(window, obs, changed) =~= with_changed + tail);
}

/// Every finding is reported in the briefing, on a bulleted line of its own
/// that holds its sentence.
#[verifier::spinoff_prover]
pub proof fn law_briefing_reports_each_finding(
    window: Seq<char>,
    obs: Seq<BehaviorObservation>,
    changed: Seq<MostChangedEntity>,
    k: int,
)
    requires
        0 <= k < obs.len(),
    ensures
        exists|i: int|
            #[trigger] occurs_at(briefing_text(window, obs, changed), "   • "@ + observation_text(obs[k]) + "\n"@, i),
{
    let line = "   • "@ + observation_text(obs[k]) + "\n"@;
    lemma_observation_line_within(obs, k);
    let i = choose|i: int| occurs_at(observation_lines(obs), line, i);
    let summary = briefing_header(window) + "   Observed "@ + int_text(obs.len() as int)
        + " behavioral changes requiring review. "@ + int_text(changed.len() as int)
        + " entities showed significant profile drift.\n\n"@;
    let with_changed = if changed.len() > 0 {
        summary + "2. Top Entities With Significant Behavioral Change:\n"@ + changed_lines(changed) + "\n"@
    } else {
        summary
    };
    let front = with_changed + "3. Key Observations & Findings:\n"@;
    lemma_occurs_after(front, observation_lines(obs), line, i);
    let after = "\n"@ + report_rule();
    lemma_occurs_before(front + observation_lines(obs), after, line, front.len() + i);
    assert(briefing_text(window, obs, changed) =~= front + observation_lines(obs) + after);
}

/// Report templates.
pub struct ExplanationTemplates;

impl ExplanationTemplates {
    /// One finding in a sentence, with its time, score and description.
    pub fn format_observation(obs: &BehaviorObservation) -> (r: String)
        requires
            obs.timestamp.valid(),
        ensures
            r@ == observation_text(*obs),
    {
        let at = format_instant(obs.timestamp, "%Y-%m-%d %H:%M:%S UTC");
        let name = obs.entity_canonical_name.as_str();
        match obs.category {
            ObservationCategory::NewBehavior => {
                let mut out = "At ".to_owned();
                out.append(at.as_str());
                out.append(", entity '");
                out.append(name);
                out.append("' exhibited a brand new behavior ('");
                out.append(obs.title.as_str());
                out.append("'). Anomaly score: ");
                out.append(obs.anomaly_score.as_str());
                out.append(". ");
                out.append(obs.description.as_str());
                out
            },
            ObservationCategory::BehaviorDrift => {
                let mut out = "Entity '".to_owned();
                out.append(name);
                out.append("' shows significant behavioral drift (drift score: ");
                out.append(obs.anomaly_score.as_str());
                out.append("). ");
                out.append(obs.description.as_str());
                out
            },
            ObservationCategory::SuddenAnomaly => {
                let mut out = "At ".to_owned();
                out.append(at.as_str());
                out.append(", entity '");
                out.append(name);
                out.append("' triggered a sudden behavioral anomaly ('");
                out.append(obs.title.as_str());
                out.append("'). Score: ");
                out.append(obs.anomaly_score.as_str());
                out.append(". ");
                out.append(obs.description.as_str());
                out
            },
            ObservationCategory::StableBehavior => {
                let mut out = "Entity '".to_owned();
                out.append(name);
                out.append("' maintains stable, expected behavior patterns across baselines.");
                out
            },
        }
    }

    fn changed_entity_line(rank: usize, item: &MostChangedEntity) -> (r: String)
        ensures
            r@ == changed_line(rank as int, *item),
    {
        let mut out = "   ".to_owned();
        let rank_text = usize_to_text(rank);
        out.append(rank_text.as_str());
        out.append(". ");
        out.append(item.canonical_name.as_str());
        out.append(" (");
        out.append(item.entity_type.as_str());
        out.append(") — Change Score: ");
        out.append(item.combined_change_score.as_str());
        out.append(" (Drift: ");
        out.append(item.drift_score.as_str());
        out.append(", Anomaly: ");
        out.append(item.anomaly_score.as_str());
        out.append(")\n");
        out
    }

    /// The briefing of `lafufu explain`: a summary, the entities that changed
    /// most (ranked), then every finding; a short all-clear when there is nothing.
    pub fn format_daily_briefing(
        window_str: &str,
        observations: &[BehaviorObservation],
        most_changed: &[MostChangedEntity],
    ) -> (r: String)
        requires
            forall|i: int| 0 <= i < observations@.len() ==> (#[trigger] observations@[i]).timestamp.valid(),
        ensures
            r@ == briefing_text(window_str@, observations@, most_changed@),
    {
        let mut out = "========================================\n".to_owned();
        out.append(" Lafufu Behavioral Intelligence Briefing\n");
        out.append(" Window: ");
        out.append(window_str);
        out.append("\n");
        out.append("========================================\n\n");
        out.append("1. Executive Summary:\n");
        assert(out@ == briefing_header(window_str@));
        if observations.len() == 0 && most_changed.len() == 0 {
            out.append(
                "   All tracked entities show consistent, stable behavior. No anomalous drift or unexpected events observed.\n\n",
            );
            return out;
        }
        out.append("   Observed ");
        let n_obs = usize_to_text(observations.len());
        out.append(n_obs.as_str());
        out.append(" behavioral changes requiring review. ");
        let n_changed = usize_to_text(most_changed.len());
        out.append(n_changed.as_str());
        out.append(" entities showed significant profile drift.\n\n");
        if most_changed.len() > 0 {
            out.append("2. Top Entities With Significant Behavioral Change:\n");
            let ghost before = out@;
            let mut i: usize = 0;
            while i < most_changed.len()
                invariant
                    i <= most_changed@.len(),
                    out@ == before + changed_lines(most_changed@.subrange(0, i as int)),
                decreases most_changed@.len() - i,
            {
                let line = Self::changed_entity_line(i + 1, &most_changed[i]);
                proof {
                    lemma_changed_lines_step(most_changed@, i as int);
                }
                out.append(line.as_str());
                assert(out@ =~= before + changed_lines(most_changed@.subrange(0, i + 1)));
                i += 1;
            }
            assert(most_changed@.subrange(0, most_changed@.len() as int) =~= most_changed@);
            out.append("\n");
        }
        if observations.len() > 0 {
            out.append("3. Key Observations & Findings:\n");
            let ghost before = out@;
            let mut i: usize = 0;
            while i < observations.len()
                invariant
                    i <= observations@.len(),
                    forall|j: int| 0 <= j < observations@.len() ==> (#[trigger] observations@[j]).timestamp.valid(),
                    out@ == before + observation_lines(observations@.subrange(0, i as int)),
                decreases observations@.len() - i,
            {
                let mut line = "   • ".to_owned();
                let text = Self::format_observation(&observations[i]);
                line.append(text.as_str());
                line.append("\n");
                proof {
                    lemma_observation_lines_step(observations@, i as int);
                }
                out.append(line.as_str());
                assert(out@ =~= before + observation_lines(observations@.subrange(0, i + 1)));
                i += 1;
            }
            assert(observations@.subrange(0, observations@.len() as int) =~= observations@);
            out.append("\n");
        }
        out.append("========================================\n");
        out
    }
}

} // verus!
