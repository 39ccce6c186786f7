use lafufu::config::{validate_identity_mappings, DatabaseConfig, IdentityResolverConfig};
use lafufu::errors::LafufuError;
use lafufu::ingestion::IngestionReport;

fn mappings(pairs: &[(&str, &str)]) -> IdentityResolverConfig {
    IdentityResolverConfig { mappings: pairs.iter().map(|(a, c)| (a.to_string(), c.to_string())).collect() }
}

fn config_error(cfg: &IdentityResolverConfig) -> String {
    match validate_identity_mappings(cfg) {
        Err(LafufuError::Config(m)) => m,
        _ => panic!("expected a configuration error"),
    }
}

#[test]
fn sound_mappings_pass() {
    assert!(validate_identity_mappings(&IdentityResolverConfig::new()).is_ok());
    assert!(validate_identity_mappings(&mappings(&[("alice@corp", "alice"), ("uid=1001", "alice")])).is_ok());
    assert!(DatabaseConfig::new().path.is_none());
}

#[test]
fn empty_sides_are_refused() {
    assert_eq!(
        config_error(&mappings(&[("  ", "alice")])),
        "Identity mappings cannot contain empty aliases or canonical names"
    );
    assert_eq!(
        config_error(&mappings(&[("alice", "")])),
        "Identity mappings cannot contain empty aliases or canonical names"
    );
}

#[test]
fn self_references_are_refused() {
    assert_eq!(config_error(&mappings(&[("bob", "bob")])), "Identity mapping for 'bob' is a self-reference");
}

#[test]
fn two_cycles_are_refused() {
    assert_eq!(
        config_error(&mappings(&[("a", "b"), ("b", "a")])),
        "Cyclic identity mapping detected: a <-> b"
    );
}

#[test]
fn reports_add_up() {
    let mut total = IngestionReport::default();
    total.absorb(IngestionReport { events_ingested: 2, entities_created: 4, edges_updated: 2, adapter_used: "generic_json".to_string() });
    total.absorb(IngestionReport { events_ingested: 1, entities_created: 0, edges_updated: 1, adapter_used: "syslog_auth".to_string() });
    assert_eq!((total.events_ingested, total.entities_created, total.edges_updated), (3, 4, 3));
    assert_eq!(total.adapter_used, "syslog_auth");
}

#[test]
fn longer_cycles_are_refused() {
    assert_eq!(
        config_error(&mappings(&[("a", "b"), ("b", "c"), ("c", "a")])),
        "Cyclic identity mapping detected: a -> b -> ... -> a"
    );
    assert!(validate_identity_mappings(&mappings(&[("a", "b"), ("b", "c"), ("c", "d")])).is_ok());
}

#[test]
fn duplicate_aliases_are_refused() {
    assert_eq!(
        config_error(&mappings(&[("alice@corp", "alice"), ("bob@corp", "bob"), ("alice@corp", "al")])),
        "Duplicate identity mapping for alias 'alice@corp'"
    );
}
