use midnight::health::{HealthRegistry, ProbeOutcome, ServiceHealth, ServiceStatus};

const SEC: u64 = 1_000_000_000;
const MILLI: u64 = 1_000_000;

fn register(
    registry: &mut HealthRegistry,
    name: &str,
    interval_nanos: u64,
    version: Option<&str>,
    outcome: ProbeOutcome,
    now_nanos: u64,
) -> u128 {
    registry
        .register(
            name.to_owned(),
            interval_nanos,
            version.map(|v| v.to_owned()),
            outcome,
            now_nanos,
        )
        .expect("a fresh identifier")
}

#[test]
fn register_returns_unique_ids() {
    let mut registry = HealthRegistry::new();
    let id1 = register(&mut registry, "svc1", 60 * SEC, None, ProbeOutcome::Passed, 0);
    let id2 = register(&mut registry, "svc2", 60 * SEC, None, ProbeOutcome::Passed, 0);
    assert_ne!(id1, id2);
}

#[test]
fn register_stores_service_metadata() {
    let mut registry = HealthRegistry::new();
    let id = register(&mut registry, "myservice", 42 * SEC, Some("1.2.3"), ProbeOutcome::Passed, 7);

    let health = registry.get(id).unwrap();
    assert_eq!(health.name, "myservice");
    assert_eq!(health.interval_nanos, 42 * SEC);
    assert_eq!(health.version.as_deref(), Some("1.2.3"));
    assert_eq!(health.id, id);
    assert_eq!(health.registered_at_nanos, 7);
}

#[test]
fn healthy_probe_sets_serving_status() {
    let mut registry = HealthRegistry::new();
    let id = register(&mut registry, "svc", 60 * SEC, None, ProbeOutcome::Passed, 0);

    let health = registry.get(id).unwrap();
    assert_eq!(health.status, ServiceStatus::Serving);
    assert!(health.message.is_none());
}

#[test]
fn failing_probe_sets_not_serving_with_message() {
    let mut registry = HealthRegistry::new();
    let id = register(
        &mut registry,
        "bad",
        60 * SEC,
        None,
        ProbeOutcome::Failed("connection refused".to_owned()),
        0,
    );

    let health = registry.get(id).unwrap();
    assert_eq!(health.status, ServiceStatus::NotServing);
    assert_eq!(health.message.as_deref(), Some("connection refused"));
}

#[test]
fn failing_probe_keeps_error_text() {
    let mut registry = HealthRegistry::new();
    let id = register(&mut registry, "e", 60 * SEC, None, ProbeOutcome::Failed("E".to_owned()), 0);

    let health = registry.get(id).unwrap();
    assert_eq!(health.status, ServiceStatus::NotServing);
    assert_eq!(health.message.as_deref(), Some("E"));
}

#[test]
fn timeout_probe_sets_not_serving() {
    let mut registry = HealthRegistry::new();
    let id = register(&mut registry, "slow", 60 * SEC, None, ProbeOutcome::TimedOut, 0);

    let health = registry.get(id).unwrap();
    assert_eq!(health.status, ServiceStatus::NotServing);
    assert_eq!(health.message.as_deref(), Some("probe timed out"));
}

#[test]
fn version_is_optional() {
    let mut registry = HealthRegistry::new();
    let id = register(&mut registry, "svc", 60 * SEC, None, ProbeOutcome::Passed, 0);

    let health = registry.get(id).unwrap();
    assert!(health.version.is_none());
}

#[test]
fn deregister_removes_service() {
    let mut registry = HealthRegistry::new();
    let id = register(&mut registry, "svc", 60 * SEC, None, ProbeOutcome::Passed, 0);

    assert!(registry.get(id).is_some());
    registry.deregister(id);
    assert!(registry.get(id).is_none());
}

#[test]
fn deregister_nonexistent_does_not_panic() {
    let mut registry = HealthRegistry::new();
    let fake_id = uuid::Uuid::new_v4().as_u128();
    registry.deregister(fake_id);
    assert!(registry.list().is_empty());
}

#[test]
fn deregister_unknown_keeps_other_entries() {
    let mut registry = HealthRegistry::new();
    let id = register(&mut registry, "svc", 60 * SEC, None, ProbeOutcome::Passed, 0);
    registry.deregister(id ^ 1);
    assert_eq!(registry.list().len(), 1);
    assert!(registry.get(id).is_some());
}

#[test]
fn get_unknown_id_returns_none() {
    let registry = HealthRegistry::new();
    assert!(registry.get(uuid::Uuid::new_v4().as_u128()).is_none());
}

#[test]
fn get_by_name_finds_service() {
    let mut registry = HealthRegistry::new();
    let id = register(&mut registry, "target", 60 * SEC, None, ProbeOutcome::Passed, 0);

    let health = registry.get_by_name("target").unwrap();
    assert_eq!(health.id, id);
    assert_eq!(health.name, "target");
}

#[test]
fn get_by_name_returns_none_for_unknown() {
    let registry = HealthRegistry::new();
    assert!(registry.get_by_name("nonexistent").is_none());
}

#[test]
fn get_by_name_with_duplicates_returns_first() {
    let mut registry = HealthRegistry::new();
    let first = register(&mut registry, "twin", 60 * SEC, None, ProbeOutcome::Passed, 0);
    let second = register(&mut registry, "twin", 60 * SEC, None, ProbeOutcome::Passed, 0);
    assert_ne!(first, second);
    assert_eq!(registry.list().len(), 2);
    assert_eq!(registry.get_by_name("twin").unwrap().id, first);
}

#[test]
fn list_returns_all_services() {
    let mut registry = HealthRegistry::new();
    register(&mut registry, "a", 60 * SEC, None, ProbeOutcome::Passed, 0);
    register(&mut registry, "b", 60 * SEC, None, ProbeOutcome::Passed, 0);
    register(&mut registry, "c", 60 * SEC, None, ProbeOutcome::Passed, 0);

    let services = registry.list();
    assert_eq!(services.len(), 3);

    let names: Vec<_> = services.iter().map(|s| s.name.as_str()).collect();
    assert!(names.contains(&"a"));
    assert!(names.contains(&"b"));
    assert!(names.contains(&"c"));
}

#[test]
fn registering_many_yields_distinct_ids() {
    let mut registry = HealthRegistry::new();
    let mut ids = Vec::new();
    for k in 0..20 {
        ids.push(register(&mut registry, &format!("svc{k}"), SEC, None, ProbeOutcome::Passed, 0));
    }
    let listed = registry.list();
    assert_eq!(listed.len(), 20);
    for a in 0..ids.len() {
        for b in 0..ids.len() {
            if a != b {
                assert_ne!(ids[a], ids[b]);
            }
        }
        assert_eq!(listed[a].id, ids[a]);
    }
}

#[test]
fn list_empty_registry() {
    let registry = HealthRegistry::new();
    assert!(registry.list().is_empty());
}

#[test]
fn uptime_increases_over_time() {
    let mut registry = HealthRegistry::new();
    let id = register(&mut registry, "svc", 60 * SEC, None, ProbeOutcome::Passed, 1_000);

    let health = registry.get(id).unwrap();
    let uptime1 = health.uptime(1_000 + 3 * MILLI);
    let uptime2 = health.uptime(1_000 + 53 * MILLI);

    assert!(uptime2 > uptime1);
    assert_eq!(uptime2 - uptime1, 50 * MILLI);
}

#[test]
fn uptime_before_registration_is_zero() {
    let mut registry = HealthRegistry::new();
    let id = register(&mut registry, "svc", 60 * SEC, None, ProbeOutcome::Passed, 5 * SEC);
    let health = registry.get(id).unwrap();
    assert_eq!(health.uptime(SEC), 0);
    assert_eq!(health.uptime(5 * SEC), 0);
    assert_eq!(health.uptime(7 * SEC), 2 * SEC);
}

#[test]
fn uptime_does_not_reset_on_failure() {
    let mut registry = HealthRegistry::new();
    let id = register(&mut registry, "svc", 60 * SEC, None, ProbeOutcome::Passed, 0);
    registry.record_probe(id, ProbeOutcome::Failed("down".to_owned()));
    let health = registry.get(id).unwrap();
    assert_eq!(health.uptime(9 * SEC), 9 * SEC);
}

#[test]
fn background_probe_updates_status() {
    let mut registry = HealthRegistry::new();
    let id = register(&mut registry, "flaky", 50 * MILLI, None, ProbeOutcome::Passed, 0);

    let health = registry.get(id).unwrap();
    assert_eq!(health.status, ServiceStatus::Serving);

    assert!(registry.record_probe(id, ProbeOutcome::Failed("went down".to_owned())));

    let health = registry.get(id).unwrap();
    assert_eq!(health.status, ServiceStatus::NotServing);
    assert_eq!(health.message.as_deref(), Some("went down"));
    assert_eq!(health.name, "flaky");
    assert_eq!(health.interval_nanos, 50 * MILLI);
}

#[test]
fn background_probe_recovers_status() {
    let mut registry = HealthRegistry::new();
    let id = register(
        &mut registry,
        "recoverable",
        50 * MILLI,
        None,
        ProbeOutcome::Failed("down".to_owned()),
        0,
    );

    let health = registry.get(id).unwrap();
    assert_eq!(health.status, ServiceStatus::NotServing);

    assert!(registry.record_probe(id, ProbeOutcome::Passed));

    let health = registry.get(id).unwrap();
    assert_eq!(health.status, ServiceStatus::Serving);
    assert!(health.message.is_none());
}

#[test]
fn probe_after_deregistration_is_ignored() {
    let mut registry = HealthRegistry::new();
    let id = register(&mut registry, "gone", SEC, None, ProbeOutcome::Passed, 0);
    registry.deregister(id);
    assert!(!registry.record_probe(id, ProbeOutcome::TimedOut));
    assert!(registry.get(id).is_none());
    assert!(registry.list().is_empty());
}

#[test]
fn multiple_services_independent_status() {
    let mut registry = HealthRegistry::new();
    let healthy_id = register(&mut registry, "healthy", 60 * SEC, None, ProbeOutcome::Passed, 0);
    let unhealthy_id = register(
        &mut registry,
        "unhealthy",
        60 * SEC,
        None,
        ProbeOutcome::Failed("error".to_owned()),
        0,
    );

    let h = registry.get(healthy_id).unwrap();
    assert_eq!(h.status, ServiceStatus::Serving);

    let u = registry.get(unhealthy_id).unwrap();
    assert_eq!(u.status, ServiceStatus::NotServing);
}

#[test]
fn register_with_taken_id_is_refused() {
    let mut registry = HealthRegistry::new();
    assert!(registry.register_with_id(9, "a".to_owned(), SEC, None, ProbeOutcome::Passed, 0));
    assert!(!registry.register_with_id(9, "b".to_owned(), SEC, None, ProbeOutcome::Passed, 0));
    assert_eq!(registry.list().len(), 1);
    assert_eq!(registry.get(9).unwrap().name, "a");
}

#[test]
fn aggregate_all_serving() {
    let mut registry = HealthRegistry::new();
    register(&mut registry, "a", SEC, None, ProbeOutcome::Passed, 0);
    register(&mut registry, "b", SEC, None, ProbeOutcome::Passed, 0);
    let summary = registry.aggregate();
    assert_eq!(summary.status, ServiceStatus::Serving);
    assert!(summary.message.is_none());
}

#[test]
fn aggregate_of_empty_registry_serves() {
    let registry = HealthRegistry::new();
    let summary = registry.aggregate();
    assert_eq!(summary.status, ServiceStatus::Serving);
    assert!(summary.message.is_none());
}

#[test]
fn aggregate_names_failing_entries() {
    let mut registry = HealthRegistry::new();
    registry.register_with_id(1, "db".to_owned(), SEC, None, ProbeOutcome::Failed("refused".to_owned()), 0);
    registry.register_with_id(2, "web".to_owned(), SEC, None, ProbeOutcome::Passed, 0);
    registry.register_with_id(3, "cache".to_owned(), SEC, None, ProbeOutcome::TimedOut, 0);
    let summary = registry.aggregate();
    assert_eq!(summary.status, ServiceStatus::NotServing);
    assert_eq!(summary.message.as_deref(), Some("db: refused; cache: probe timed out"));
}

#[test]
fn aggregate_single_failure_has_no_separator() {
    let mut registry = HealthRegistry::new();
    registry.register_with_id(1, "db".to_owned(), SEC, None, ProbeOutcome::Failed("E".to_owned()), 0);
    let summary = registry.aggregate();
    assert_eq!(summary.message.as_deref(), Some("db: E"));
}

#[test]
fn check_empty_name_is_primary_entry() {
    let mut registry = HealthRegistry::new();
    registry.register_with_id(1, "db".to_owned(), SEC, None, ProbeOutcome::Failed("x".to_owned()), 0);
    assert!(registry.check("").is_none());
    registry.register_with_id(2, "server".to_owned(), SEC, None, ProbeOutcome::Passed, 0);
    let primary = registry.check("").unwrap();
    assert_eq!(primary.status, ServiceStatus::Serving);
    assert!(primary.message.is_none());
    let db = registry.check("db").unwrap();
    assert_eq!(db.status, ServiceStatus::NotServing);
    assert_eq!(db.message.as_deref(), Some("x"));
    assert!(registry.check("other").is_none());
}

#[test]
fn removed_id_is_not_issued_again() {
    let mut registry = HealthRegistry::new();
    assert!(registry.register_with_id(5, "a".to_owned(), SEC, None, ProbeOutcome::Passed, 0));
    registry.deregister(5);
    assert!(!registry.register_with_id(5, "b".to_owned(), SEC, None, ProbeOutcome::Passed, 0));
    assert!(registry.get(5).is_none());
    assert!(registry.list().is_empty());
}

#[test]
fn service_status_equality() {
    assert_eq!(ServiceStatus::Serving, ServiceStatus::Serving);
    assert_eq!(ServiceStatus::NotServing, ServiceStatus::NotServing);
    assert_ne!(ServiceStatus::Serving, ServiceStatus::NotServing);
}

#[test]
fn service_health_clone() {
    let health = ServiceHealth {
        id: uuid::Uuid::new_v4().as_u128(),
        name: "test".to_owned(),
        status: ServiceStatus::Serving,
        interval_nanos: 30 * SEC,
        registered_at_nanos: 0,
        version: Some("1.0.0".to_owned()),
        message: None,
    };

    let cloned = health.clone();
    assert_eq!(cloned.id, health.id);
    assert_eq!(cloned.name, health.name);
    assert_eq!(cloned.status, health.status);
    assert_eq!(cloned.version, health.version);
}

#[test]
fn drawn_ids_are_version_four() {
    let mut registry = HealthRegistry::new();
    let id = register(&mut registry, "svc", SEC, None, ProbeOutcome::Passed, 0);
    assert_eq!((id >> 76) & 0xf, 4);
    assert_eq!((id >> 62) & 0x3, 2);
}
