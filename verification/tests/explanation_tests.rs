use lafufu::detection::{BehaviorObservation, MostChangedEntity, ObservationCategory};
use lafufu::domain::{Edge, Entity, Event};
use lafufu::errors::LafufuError;
use lafufu::explanation::ask::ConversationalQueryEngine;
use lafufu::explanation::engine::find_entity_by_name;
use lafufu::explanation::export::{ExportEngine, ExportTable};
use lafufu::explanation::timeline::TimelineGenerator;
use lafufu::explanation::ExplanationTemplates;
use lafufu::json_value::JsonValue;
use lafufu::time::Timestamp;

const RULE: &str = "========================================\n";

fn observation(category: ObservationCategory) -> BehaviorObservation {
    BehaviorObservation {
        entity_id: 7,
        entity_canonical_name: "alice".to_string(),
        category,
        title: "Sudden anomaly in action 'sudo_exec'".to_string(),
        description: "Entity alice performed action 'sudo_exec' with high anomaly score (0.91)".to_string(),
        anomaly_score: "0.91".to_string(),
        timestamp: Timestamp::new(1_785_088_800, 0),
    }
}

fn changed(name: &str, combined: &str) -> MostChangedEntity {
    MostChangedEntity {
        entity_id: 1,
        canonical_name: name.to_string(),
        entity_type: "user".to_string(),
        drift_score: "0.40".to_string(),
        anomaly_score: "0.60".to_string(),
        combined_change_score: combined.to_string(),
        new_behaviors_count: 1,
    }
}

#[test]
fn observation_sentences() {
    let desc = "Entity alice performed action 'sudo_exec' with high anomaly score (0.91)";
    assert_eq!(
        ExplanationTemplates::format_observation(&observation(ObservationCategory::SuddenAnomaly)),
        format!("At 2026-07-26 18:00:00 UTC, entity 'alice' triggered a sudden behavioral anomaly ('Sudden anomaly in action 'sudo_exec''). Score: 0.91. {}", desc)
    );
    assert_eq!(
        ExplanationTemplates::format_observation(&observation(ObservationCategory::NewBehavior)),
        format!("At 2026-07-26 18:00:00 UTC, entity 'alice' exhibited a brand new behavior ('Sudden anomaly in action 'sudo_exec''). Anomaly score: 0.91. {}", desc)
    );
    assert_eq!(
        ExplanationTemplates::format_observation(&observation(ObservationCategory::BehaviorDrift)),
        format!("Entity 'alice' shows significant behavioral drift (drift score: 0.91). {}", desc)
    );
    assert_eq!(
        ExplanationTemplates::format_observation(&observation(ObservationCategory::StableBehavior)),
        "Entity 'alice' maintains stable, expected behavior patterns across baselines."
    );
}

#[test]
fn quiet_briefing() {
    let b = ExplanationTemplates::format_daily_briefing("24h", &[], &[]);
    assert_eq!(
        b,
        format!(
            "{RULE} Lafufu Behavioral Intelligence Briefing\n Window: 24h\n========================================\n\n1. Executive Summary:\n   All tracked entities show consistent, stable behavior. No anomalous drift or unexpected events observed.\n\n"
        )
    );
}

#[test]
fn full_briefing() {
    let obs = vec![observation(ObservationCategory::StableBehavior)];
    let top = vec![changed("alice", "0.50"), changed("bob", "0.30")];
    let b = ExplanationTemplates::format_daily_briefing("7d", &obs, &top);
    let expected = format!(
        "{RULE} Lafufu Behavioral Intelligence Briefing\n Window: 7d\n========================================\n\n1. Executive Summary:\n   Observed 1 behavioral changes requiring review. 2 entities showed significant profile drift.\n\n2. Top Entities With Significant Behavioral Change:\n   1. alice (user) — Change Score: 0.50 (Drift: 0.40, Anomaly: 0.60)\n   2. bob (user) — Change Score: 0.30 (Drift: 0.40, Anomaly: 0.60)\n\n3. Key Observations & Findings:\n   • Entity 'alice' maintains stable, expected behavior patterns across baselines.\n\n{RULE}"
    );
    assert_eq!(b, expected);
    assert!(b.contains("Lafufu Behavioral Intelligence Briefing"));
}

#[test]
fn briefing_with_findings_only() {
    let obs = vec![observation(ObservationCategory::BehaviorDrift)];
    let b = ExplanationTemplates::format_daily_briefing("24h", &obs, &[]);
    assert!(b.contains("Observed 1 behavioral changes requiring review. 0 entities showed"));
    assert!(!b.contains("2. Top Entities"));
    assert!(b.contains("3. Key Observations & Findings:\n   • Entity 'alice' shows significant behavioral drift"));
    assert!(b.ends_with(RULE));
}

fn entity(kind: &str, name: &str) -> Entity {
    Entity::new(kind, name, JsonValue::Null, Timestamp::new(1_700_000_000, 0))
}

#[test]
fn answers_about_changes() {
    let entities = vec![entity("service", "payment-api")];
    let quiet = ConversationalQueryEngine::answer_question("What changed today?", &entities, &[], &[]);
    assert!(quiet.contains("Lafufu Conversational Query Response"));
    assert_eq!(
        quiet,
        format!("{RULE} Lafufu Conversational Query Response\n Query: \"What changed today?\"\n========================================\n\nBased on behavior graph evidence for the past 7 days:\n\nNo significant behavioral changes or anomalies detected across any active entity baselines.\n\n{RULE}")
    );
    let obs = vec![observation(ObservationCategory::SuddenAnomaly)];
    let top = vec![changed("alice", "0.50")];
    let busy = ConversationalQueryEngine::answer_question("Any ANOMALY?", &entities, &obs, &top);
    assert_eq!(
        busy,
        format!("{RULE} Lafufu Conversational Query Response\n Query: \"Any ANOMALY?\"\n========================================\n\nBased on behavior graph evidence for the past 7 days:\n\nEntities with highest behavioral change:\n • alice (user): Change Score 0.50 (Drift: 0.40, Anomaly: 0.60)\n\nKey Behavioral Observations:\n • [SuddenAnomaly] alice: Entity alice performed action 'sudo_exec' with high anomaly score (0.91)\n\n{RULE}")
    );
}

#[test]
fn other_questions_get_the_roster() {
    let entities = vec![entity("service", "payment-api"), entity("user", "alice")];
    let a = ConversationalQueryEngine::answer_question("who is here?", &entities, &[], &[]);
    assert_eq!(
        a,
        format!("{RULE} Lafufu Conversational Query Response\n Query: \"who is here?\"\n========================================\n\nTracking 2 total entities in the local behavior graph.\n\nActive Entity Roster:\n • payment-api (service)\n • alice (user)\n\n{RULE}")
    );
}

#[test]
fn timeline_of_an_entity() {
    let bob = entity("user", "bob");
    let other = entity("host", "srv1");
    // Two days, given out of order; on the later day two logins and a sudo.
    let day1 = Timestamp::new(1_785_088_800 - 86400, 0);
    let day2 = Timestamp::new(1_785_088_800, 0);
    let events = vec![
        Event::new("login", day2, bob.id, None, JsonValue::Null),
        Event::new("sudo_exec", day2, bob.id, None, JsonValue::Null),
        Event::new("login", day1, bob.id, None, JsonValue::Null),
        Event::new("login", day2, bob.id, None, JsonValue::Null),
    ];
    let edges = vec![
        Edge::new(bob.id, other.id, "logged_into", day1),
        Edge::new(other.id, bob.id, "connected_from", day2),
    ];
    let t = TimelineGenerator::build_timeline(&bob, &events, &edges);
    assert!(t.contains("Behavioral Timeline: bob"));
    assert!(t.contains("Phase 1"));
    assert_eq!(
        t,
        format!("{RULE} Behavioral Timeline: bob (user)\n{RULE}Total Observed Events: 4\nActive Timeline Windows: 2\n\nChronological Phases & Key Activities:\n Phase 1: [2026-07-25] — 1 events\n   Actions: login (x1)\n Phase 2: [2026-07-26] — 3 events\n   Actions: login (x2), sudo_exec (x1)\n\nKnown Graph Relationships:\n • Relationship 'logged_into' (Source -> Target) | First seen: 2026-07-25 | Last seen: 2026-07-25\n • Relationship 'connected_from' (Target <- Source) | First seen: 2026-07-26 | Last seen: 2026-07-26\n{RULE}")
    );
}

#[test]
fn empty_timeline() {
    let bob = entity("user", "bob");
    let t = TimelineGenerator::build_timeline(&bob, &[], &[]);
    assert_eq!(t, format!("{RULE} Behavioral Timeline: bob (user)\n{RULE}No recorded behavioral history for this entity.\n"));
}

#[test]
fn entities_are_found_by_name_ignoring_case() {
    let entities = vec![entity("user", "alice"), entity("user", "Bob"), entity("host", "bob")];
    assert_eq!(find_entity_by_name(&entities, "BOB").unwrap(), 1);
    match find_entity_by_name(&entities, "carol") {
        Err(LafufuError::Analysis(m)) => assert_eq!(m, "Entity 'carol' not found in storage"),
        _ => panic!("expected an analysis error"),
    }
}

#[test]
fn export_targets() {
    assert_eq!(ExportEngine::select_table("entities").unwrap(), ExportTable::Entities);
    assert_eq!(ExportEngine::select_table("Entity").unwrap(), ExportTable::Entities);
    assert_eq!(ExportEngine::select_table("EVENTS").unwrap(), ExportTable::Events);
    assert_eq!(ExportEngine::select_table("edge").unwrap(), ExportTable::Edges);
    match ExportEngine::select_table("baselines") {
        Err(LafufuError::Ingestion(m)) => {
            assert_eq!(m, "Invalid export table target: 'baselines'. Valid options: entities, events, edges")
        }
        _ => panic!("expected an ingestion error"),
    }
}

#[test]
fn category_names() {
    assert_eq!(ObservationCategory::NewBehavior.name(), "NewBehavior");
    assert_eq!(ObservationCategory::BehaviorDrift.name(), "BehaviorDrift");
    assert_eq!(ObservationCategory::SuddenAnomaly.name(), "SuddenAnomaly");
    assert_eq!(ObservationCategory::StableBehavior.name(), "StableBehavior");
}

#[test]
fn observation_times_far_from_now() {
    let mut obs = observation(ObservationCategory::NewBehavior);
    obs.timestamp = Timestamp::new(253_402_300_800, 0);
    assert!(ExplanationTemplates::format_observation(&obs).starts_with("At +10000-01-01 00:00:00 UTC, "));
    obs.timestamp = Timestamp::new(-62_004_243_111, 0);
    assert!(ExplanationTemplates::format_observation(&obs).starts_with("At 0005-03-01 07:08:09 UTC, "));
    obs.timestamp = Timestamp::new(-62_167_305_600, 0);
    assert!(ExplanationTemplates::format_observation(&obs).starts_with("At -0001-12-31 00:00:00 UTC, "));
    // 2016-12-31 23:59:60.5, a leap second.
    obs.timestamp = Timestamp::new(1_483_228_799, 1_500_000_000);
    assert!(ExplanationTemplates::format_observation(&obs).starts_with("At 2016-12-31 23:59:60 UTC, "));
}
