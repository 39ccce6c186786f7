use lafufu::domain::Entity;
use lafufu::json_value::JsonValue;
use lafufu::normalization::identity::{IdentityConfig, IdentityResolver};
use lafufu::time::Timestamp;

#[test]
fn test_email_canonicalization() {
    let resolver = IdentityResolver::default();
    let (canonical, entity_type) = resolver.resolve_identifier("Alice.Smith@company.com", "user");
    assert_eq!(canonical, "alice.smith");
    assert_eq!(entity_type, "user");
}

#[test]
fn test_explicit_alias() {
    let mut resolver = IdentityResolver::default();
    resolver.register_alias("uid=1001", "alice");
    let (canonical, entity_type) = resolver.resolve_identifier("uid=1001", "user");
    assert_eq!(canonical, "alice");
    assert_eq!(entity_type, "user");
}

#[test]
fn test_ip_detection() {
    let resolver = IdentityResolver::default();
    let (canonical, entity_type) = resolver.resolve_identifier("192.168.1.100", "unknown");
    assert_eq!(canonical, "192.168.1.100");
    assert_eq!(entity_type, "ip_address");
}

#[test]
fn registered_alias_resolves_through_padding() {
    let mut resolver = IdentityResolver::new(IdentityConfig::new());
    resolver.register_alias("alice@corp.example", "alice");
    let (canonical, _) = resolver.resolve_identifier("  alice@corp.example\t", "user");
    assert_eq!(canonical, "alice");
}

#[test]
fn registering_an_alias_keeps_other_identifiers() {
    let mut resolver = IdentityResolver::default();
    let before = resolver.resolve_identifier("Bob@corp.example", "user");
    resolver.register_alias("uid=1001", "alice");
    let after = resolver.resolve_identifier("Bob@corp.example", "user");
    assert_eq!(before, after);
    assert_eq!(after.0, "bob");
}

#[test]
fn re_registering_an_alias_replaces_it() {
    let mut resolver = IdentityResolver::default();
    resolver.register_alias("svc", "payments");
    resolver.register_alias("svc", "billing");
    assert_eq!(resolver.resolve_identifier("svc", "service").0, "billing");
}

#[test]
fn heuristics_of_names_and_types() {
    assert_eq!(IdentityResolver::heuristic_canonical_name("uid=1001"), "1001");
    assert_eq!(IdentityResolver::heuristic_canonical_name("@handle"), "@handle");
    assert_eq!(IdentityResolver::heuristic_canonical_name("MixedCase"), "mixedcase");
    assert_eq!(IdentityResolver::heuristic_entity_type("::1", "unknown"), "ip_address");
    assert_eq!(IdentityResolver::heuristic_entity_type("::1", "host"), "host");
    assert_eq!(IdentityResolver::heuristic_entity_type("server01", "unknown"), "unknown");
    assert_eq!(IdentityResolver::heuristic_entity_type("10.0.0.1", ""), "ip_address");
}

#[test]
fn same_canonical_name_gives_one_entity() {
    let resolver = IdentityResolver::default();
    let t = Timestamp::new(1_700_000_000, 0);
    let a = resolver.resolve_entity("Alice@corp.example", "user", JsonValue::Null, t);
    let b = resolver.resolve_entity(" alice ", "user", JsonValue::Null, t);
    assert_eq!(a.canonical_name, "alice");
    assert_eq!(b.canonical_name, "alice");
    assert_eq!(a.id, b.id);
    assert_eq!(a.id, Entity::generate_id("user", "alice"));
    assert_eq!(uuid::Uuid::from_u128(a.id).get_version_num(), 5);
}

#[test]
fn entity_ids_are_name_based_uuids() {
    let id = Entity::generate_id("user", "alice");
    let ns = uuid::Uuid::from_u128(lafufu::domain::LAFUFU_NAMESPACE);
    assert_eq!(id, uuid::Uuid::new_v5(&ns, b"user:alice").as_u128());
    assert_ne!(id, Entity::generate_id("service", "alice"));
}
