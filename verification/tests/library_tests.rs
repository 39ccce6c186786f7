use lafufu::behavior::profile_kind::{Feature, ProfileKind};
use lafufu::detection::{BehaviorObservation, ObservationCategory};
use lafufu::domain::{Edge, Event};
use lafufu::errors::LafufuError;
use lafufu::ingestion::stream::{next_tail_action, ReadOutcome, TailAction};
use lafufu::json_value::JsonValue;
use lafufu::time::Timestamp;

fn context(pairs: &[(&str, JsonValue)]) -> JsonValue {
    JsonValue::Object(
        pairs
            .iter()
            .map(|(k, v)| {
                let v = match v {
                    JsonValue::Str(s) => JsonValue::Str(s.clone()),
                    JsonValue::Bool(b) => JsonValue::Bool(*b),
                    _ => JsonValue::Null,
                };
                (k.to_string(), v)
            })
            .collect(),
    )
}

fn features(kind: ProfileKind, e: &Event, is_source: bool) -> Vec<(Feature, String)> {
    kind.event_features(e, is_source)
}

#[test]
fn profile_kinds_of_entity_types() {
    assert_eq!(ProfileKind::for_entity_type("User"), ProfileKind::User);
    assert_eq!(ProfileKind::for_entity_type("SERVICE"), ProfileKind::Service);
    assert_eq!(ProfileKind::for_entity_type("container"), ProfileKind::Container);
    assert_eq!(ProfileKind::for_entity_type("github_repo"), ProfileKind::Repository);
    assert_eq!(ProfileKind::for_entity_type("Repo"), ProfileKind::Repository);
    assert_eq!(ProfileKind::for_entity_type("ip_address"), ProfileKind::Generic);
}

#[test]
fn event_features_by_kind() {
    // 2026-07-26 18:00:00 UTC
    let at = Timestamp::new(1_785_088_800, 0);
    let ctx = context(&[("ip", JsonValue::Str("10.0.0.7".into())), ("actor", JsonValue::Str("octocat".into()))]);
    let e = Event::new("login", at, 1, None, ctx);
    assert_eq!(
        features(ProfileKind::User, &e, true),
        vec![
            (Feature::LoginHours, "18".to_string()),
            (Feature::Actions, "login".to_string()),
            (Feature::Locations, "10.0.0.7".to_string())
        ]
    );
    assert_eq!(
        features(ProfileKind::Repository, &e, true),
        vec![
            (Feature::Actions, "login".to_string()),
            (Feature::HourlyActivity, "18".to_string()),
            (Feature::Contributors, "octocat".to_string())
        ]
    );
    assert_eq!(features(ProfileKind::Repository, &e, false).len(), 2);
    assert_eq!(
        features(ProfileKind::Generic, &e, true),
        vec![(Feature::Actions, "login".to_string()), (Feature::HourlyActivity, "18".to_string())]
    );
}

#[test]
fn service_endpoint_prefers_the_endpoint_member() {
    let at = Timestamp::new(1_785_088_800, 0);
    let both = Event::new(
        "call",
        at,
        1,
        None,
        context(&[("target", JsonValue::Str("db".into())), ("endpoint", JsonValue::Str("/pay".into()))]),
    );
    assert_eq!(features(ProfileKind::Service, &both, true)[2], (Feature::ApiEndpoints, "/pay".to_string()));
    let target_only = Event::new("call", at, 1, None, context(&[("target", JsonValue::Str("db".into()))]));
    assert_eq!(features(ProfileKind::Service, &target_only, true)[2], (Feature::ApiEndpoints, "db".to_string()));
    let not_text = Event::new(
        "call",
        at,
        1,
        None,
        context(&[("endpoint", JsonValue::Bool(true)), ("target", JsonValue::Str("db".into()))]),
    );
    assert_eq!(features(ProfileKind::Service, &not_text, true).len(), 2);
}

#[test]
fn relationship_partners_are_hyphenated_uuids() {
    let at = Timestamp::new(1_785_088_800, 0);
    let edge = Edge::new(0x1234, 0x00112233_4455_6677_8899_aabbccddeeffu128, "logged_into", at);
    let (f, partner) = ProfileKind::User.edge_feature(&edge, true);
    assert_eq!(f, Feature::InteractionPartners);
    assert_eq!(partner, "00112233-4455-6677-8899-aabbccddeeff");
    let (f, partner) = ProfileKind::Generic.edge_feature(&edge, false);
    assert_eq!(f, Feature::Targets);
    assert_eq!(partner, "00000000-0000-0000-0000-000000001234");
    let all_ones = Edge::new(u128::MAX, 1, "x", at);
    assert_eq!(ProfileKind::Service.edge_feature(&all_ones, false).1, "ffffffff-ffff-ffff-ffff-ffffffffffff");
}

#[test]
fn findings_built_for_detection() {
    let at = Timestamp::new(1_785_088_800, 0);
    let d = BehaviorObservation::drift(9, "alice", "0.42", at);
    assert_eq!(d.category, ObservationCategory::BehaviorDrift);
    assert_eq!(d.title, "Behavior drift detected in alice");
    assert_eq!(d.description, "Entity alice shows gradual behavioral drift (medium vs long term divergence: 0.42)");
    let s = BehaviorObservation::sudden_anomaly(9, "alice", "sudo_exec", "0.91", at);
    assert_eq!(s.title, "Sudden anomaly in action 'sudo_exec'");
    assert_eq!(s.description, "Entity alice performed action 'sudo_exec' with high anomaly score (0.91)");
    let n = BehaviorObservation::new_interaction(9, "alice", at);
    assert_eq!(n.title, "New interaction partner for alice");
    assert_eq!(n.description, "Entity alice established a relationship with an unobserved target entity");
    assert_eq!(n.anomaly_score, "1.00");
}

#[test]
fn error_messages() {
    assert_eq!(LafufuError::Config("bad".into()).message(), "Configuration error: bad");
    assert_eq!(LafufuError::Ingestion("x".into()).message(), "Log ingestion/parsing error: x");
    assert_eq!(LafufuError::Analysis("y".into()).message(), "Behavioral profiling error: y");
    assert_eq!(LafufuError::IdentityResolution("z".into()).message(), "Identity resolution error: z");
    let io = LafufuError::Io(std::io::Error::new(std::io::ErrorKind::Other, "disk"));
    assert_eq!(io.message(), "IO error: disk");
    let db = LafufuError::Storage(rusqlite::Error::InvalidQuery);
    assert!(db.message().starts_with("Database storage error: "));
}

#[test]
fn tailing_steps() {
    assert!(matches!(next_tail_action(&ReadOutcome::EndOfFile), TailAction::Pause));
    assert!(matches!(next_tail_action(&ReadOutcome::Failed), TailAction::Pause));
    assert!(matches!(next_tail_action(&ReadOutcome::Line("  \n".into())), TailAction::Skip));
    match next_tail_action(&ReadOutcome::Line("  Jul 26 sshd: hi\n".into())) {
        TailAction::Ingest(t) => assert_eq!(t, "Jul 26 sshd: hi"),
        _ => panic!("expected a line to ingest"),
    }
}
