use xiranet::admin::requests::{
    check_create_user, default_job_interval, default_percentage, default_role, incident_severity, incident_status,
    is_elevated, login_fields_present, CreateUserError, CreateUserRequest, LoginRequest,
};
use xiranet::bus::{next_backoff, BusEvent, NoOpBus, XiraBus};
use xiranet::deployment::feature_flags::{rollout_bucket, FeatureFlagManager, Operator, TargetRule};
use xiranet::discovery::mesh::{DockerDiscovery, ServiceMesh};
use xiranet::discovery::{consul_plan, consul_services_url, dns_plan, dns_service, srv_target_host, upstream_url};
use xiranet::identity::users::UserRole;
use xiranet::ops::incidents::{IncidentStatus, Severity};

fn req(email: &str, user: &str, pw: &str, role: &str) -> CreateUserRequest {
    CreateUserRequest {
        email: email.to_string(),
        username: user.to_string(),
        password: pw.to_string(),
        role: role.to_string(),
    }
}

#[test]
fn create_user_checks_in_order() {
    let ok = req("a@x.io", "a", "longenough", "Admin");
    assert!(matches!(check_create_user(&ok, false, 8), Err(CreateUserError::RegistrationDisabled)));
    assert!(matches!(check_create_user(&req("a@x.io", "a", "short", "Admin"), true, 8), Err(CreateUserError::PasswordTooShort(8))));
    assert!(matches!(check_create_user(&req("", "a", "longenough", "Admin"), true, 8), Err(CreateUserError::MissingFields)));
    match check_create_user(&req("a@x.io", "a", "longenough", "Root"), true, 8) {
        Err(e) => {
            assert!(matches!(e, CreateUserError::UnknownRole(_)));
            assert_eq!(e.message(), "Unknown role: Root");
        }
        Ok(_) => panic!("unknown role accepted"),
    }
    let role = check_create_user(&ok, true, 8).ok().unwrap();
    assert!(matches!(role, UserRole::Admin));
    assert!(is_elevated(&role));
    assert!(!is_elevated(&UserRole::Viewer));
    assert_eq!(CreateUserError::PasswordTooShort(12).message(), "Password must be at least 12 characters");
    assert_eq!(CreateUserError::RegistrationDisabled.message(), "Registration is disabled");
}

#[test]
fn request_defaults_and_names() {
    assert_eq!(default_role(), "Viewer");
    assert_eq!(default_job_interval(), 60);
    assert_eq!(default_percentage(), 100);
    assert_eq!(incident_severity("Critical"), Severity::Critical);
    assert_eq!(incident_severity("whatever"), Severity::Minor);
    assert_eq!(incident_status("Resolved"), IncidentStatus::Resolved);
    assert_eq!(incident_status(""), IncidentStatus::Investigating);
    assert!(!login_fields_present(&LoginRequest { email: "a".to_string(), password: String::new() }));
    assert!(login_fields_present(&LoginRequest { email: "a".to_string(), password: "p".to_string() }));
}

#[test]
fn noop_publish_does_nothing() {
    let bus = NoOpBus;
    bus.publish(&BusEvent::SessionInvalidateUser { user_id: "u1".into() });
    assert_eq!(bus.kind(), "noop");
}

#[test]
fn subscriber_backoff_doubles_to_thirty() {
    let mut b = 1;
    let mut seen = vec![];
    for _ in 0..7 {
        b = next_backoff(b);
        seen.push(b);
    }
    assert_eq!(seen, vec![2, 4, 8, 16, 30, 30, 30]);
}

#[test]
fn consul_and_dns_plans() {
    assert_eq!(consul_services_url("http://c:8500", Some("dc1")), "http://c:8500/v1/catalog/services?dc=dc1");
    assert_eq!(consul_services_url("http://c:8500", None), "http://c:8500/v1/catalog/services");
    let inst = vec![("10.0.0.1".to_string(), 8080u16), ("10.0.0.2".to_string(), 8081u16)];
    let p = consul_plan("api", &inst, false).unwrap();
    assert_eq!(p.prefix, "/api");
    assert_eq!(p.primary, "http://10.0.0.1:8080");
    assert_eq!(p.extra, vec!["http://10.0.0.2:8081".to_string()]);
    assert!(consul_plan("consul", &inst, false).is_none());
    assert!(consul_plan("api", &inst, true).is_none());
    assert!(consul_plan("api", &[], false).is_none());
    assert_eq!(dns_service("_api._tcp.example.com"), "api");
    assert_eq!(srv_target_host("node1.example.com."), "node1.example.com");
    let d = dns_plan("_api._tcp.example.com", &[("node1".to_string(), 443u16)], false).unwrap();
    assert_eq!(d.name, "api");
    assert_eq!(d.primary, "http://node1:443");
    assert!(d.extra.is_empty());
    assert_eq!(upstream_url("h", 0), "http://h:0");
}

#[test]
fn docker_labels_announce_services() {
    let d = DockerDiscovery::new("http://docker".to_string());
    assert_eq!(d.label_prefix, "xiranet.");
    assert_eq!(d.containers_url(), "http://docker/containers/json?filters={\"status\":[\"running\"]}");
    let s = DockerDiscovery::service_from_labels(Some("api"), Some("/api"), Some("8080"), Some("172.17.0.2"), None).unwrap();
    assert_eq!(s.upstream, "http://172.17.0.2:8080");
    assert_eq!(s.health_endpoint, "/health");
    assert!(DockerDiscovery::service_from_labels(Some("api"), Some("/api"), Some("70000"), Some("ip"), None).is_none());
    assert!(DockerDiscovery::service_from_labels(Some("api"), Some("/api"), Some("80a"), Some("ip"), None).is_none());
    assert!(DockerDiscovery::service_from_labels(Some("api"), None, Some("80"), Some("ip"), None).is_none());
    let plus = DockerDiscovery::service_from_labels(Some("a"), Some("/a"), Some("+81"), Some("ip"), Some("/hz")).unwrap();
    assert_eq!(plus.upstream, "http://ip:81");
    assert_eq!(plus.health_endpoint, "/hz");
}

#[test]
fn mesh_register_resolve_deregister() {
    let mut m = ServiceMesh::new(true);
    m.register_service("orders".to_string(), 15001, true, vec!["v1".to_string()]);
    m.register_service("users".to_string(), 15002, false, vec![]);
    let s = m.resolve("orders").unwrap();
    assert_eq!(s.sidecar_port, 15001);
    assert_eq!(s.load_balance, "round-robin");
    assert_eq!(s.retry_policy.retry_on, vec!["5xx".to_string(), "connect-failure".to_string()]);
    assert_eq!(m.service_count(), 2);
    assert_eq!(m.list_services().len(), 2);
    assert!(m.deregister("orders"));
    assert!(!m.deregister("orders"));
    assert!(m.resolve("orders").is_none());
    assert!(m.is_enabled());
}

#[test]
fn flag_evaluation_with_rules_and_rollout() {
    let mut f = FeatureFlagManager::new();
    f.create("beta".to_string(), "b".to_string(), true, 100);
    let rule = TargetRule { attribute: "country".to_string(), operator: Operator::InList, value: "TR, DE".to_string() };
    assert!(f.add_rule("beta", rule));
    let tr = vec![("country".to_string(), "DE".to_string())];
    let us = vec![("country".to_string(), "US".to_string())];
    assert!(f.evaluate("beta", &tr));
    assert!(!f.evaluate("beta", &us));
    assert!(!f.evaluate("missing", &tr));
    f.create("half".to_string(), String::new(), true, 50);
    let b = rollout_bucket("half", &tr);
    assert!(b < 100);
    assert_eq!(f.evaluate_with_bucket("half", &tr, b), b < 50);
    assert_eq!(rollout_bucket("half", &tr), b);
}
