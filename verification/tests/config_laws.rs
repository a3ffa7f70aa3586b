use xiranet::config::{PathFacts, ServiceConfig, XiraConfig};

fn service(prefix: &str) -> ServiceConfig {
    ServiceConfig {
        name: format!("svc{prefix}"),
        prefix: prefix.to_string(),
        upstream: "http://up:1".to_string(),
        health_endpoint: "/health".to_string(),
        upstreams: vec![],
        load_balance: None,
        version: None,
        transform: None,
        validation_schema: None,
        ip_whitelist: vec![],
        ip_blacklist: vec![],
    }
}

fn facts() -> PathFacts {
    PathFacts { cert_exists: true, key_exists: true, client_ca_exists: true, plugin_dir_exists: true }
}

#[test]
fn duplicate_prefix_errors_count_repeats_only() {
    let mut c = XiraConfig::default();
    c.services = vec![service("/a"), service("/a"), service("/b"), service("/a")];
    let r = c.validate(&facts());
    let dups = r.errors.iter().filter(|m| m.starts_with("duplicate [[services]] prefix: ")).count();
    assert_eq!(dups, 2);
    assert!(r.errors.iter().any(|m| m.starts_with("admin.")));
    c.services = vec![service("/a"), service("/b")];
    let r = c.validate(&facts());
    assert_eq!(r.errors.iter().filter(|m| m.starts_with("duplicate [[services]] prefix: ")).count(), 0);
}

#[test]
fn bus_errors_come_exactly_from_a_refused_bus() {
    let mut c = XiraConfig::default();
    assert!(!c.validate(&facts()).errors.iter().any(|m| m.starts_with("bus.")));
    c.bus.backend = "redis".to_string();
    c.bus.redis_url = String::new();
    let r = c.validate(&facts());
    assert!(r.errors.iter().any(|m| m == "bus.backend = \"redis\" requires bus.redis_url"));
    c.bus.redis_url = "rediss://cache:6380".to_string();
    assert!(!c.validate(&facts()).errors.iter().any(|m| m.starts_with("bus.")));
    c.bus.backend = "kafka".to_string();
    assert!(c.validate(&facts()).errors.iter().any(|m| m.starts_with("bus.backend = kafka")));
}
