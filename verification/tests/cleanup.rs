use xiranet::gateway::interceptors::{InterceptorAction, InterceptorChain, InterceptorContext, SecurityHeaders, SizeLimiter};
use xiranet::alerting::{AlertKind, AlertManager};
use xiranet::gateway::pipeline::determine_target_service;
use xiranet::ops::metrics::extract_prefix;
use xiranet::identity::sessions::SessionManager;
use xiranet::ops::incidents::{IncidentManager, IncidentStatus, Severity};

#[test]
fn cleanup_drops_expired_and_inactive_sessions() {
    let mut m = SessionManager::new(5);
    m.create_at("u", "t1", "ip", "ua", 10, 0);
    m.create_at("u", "t2", "ip", "ua", 100, 0);
    m.create_at("v", "t3", "ip", "ua", 5, 0);
    assert_eq!(m.total_count(), 3);
    assert_eq!(m.cleanup_expired_at(50), 2);
    assert_eq!(m.total_count(), 1);
    assert!(m.validate_at("t1", 50).is_none());
    assert!(m.validate_at("t3", 50).is_none());
    assert!(m.validate_at("t2", 50).is_some());
    assert_eq!(m.cleanup_expired_at(50), 0);
    assert_eq!(m.invalidate_all("u"), 1);
}

#[test]
fn cleanup_at_time_zero_keeps_fresh_sessions() {
    let mut m = SessionManager::new(5);
    m.create_at("u", "a", "ip", "ua", 1, 0);
    assert_eq!(m.cleanup_expired_at(1), 0);
    assert_eq!(m.cleanup_expired_at(2), 1);
    assert_eq!(m.active_count(), 0);
}

#[test]
fn incident_updates_stamp_the_timeline() {
    let mut m = IncidentManager::new();
    m.create_with("inc-1".to_string(), "db down".to_string(), Severity::Critical, vec![], 5);
    assert!(m.add_update("inc-1", "looking".to_string(), "ops".to_string()));
    assert!(!m.add_update("inc-2", "x".to_string(), "ops".to_string()));
    assert!(m.update_status("inc-1", IncidentStatus::Resolved));
    let inc = m.at(0);
    assert_eq!(inc.status, IncidentStatus::Resolved);
    assert!(inc.resolved_at.is_some());
    assert_eq!(inc.timeline.len(), 3);
    assert_eq!(inc.timeline[1].message, "looking");
    assert_eq!(inc.timeline[1].author, "ops");
    assert_eq!(inc.timeline[2].message, "Status changed to Resolved");
    assert_eq!(inc.timeline[2].author, "system");
}

#[test]
fn graphql_query_picks_named_service() {
    let prefixes = vec!["/orders".to_string(), "/users".to_string()];
    assert_eq!(determine_target_service("query { users { id } }", &prefixes), Some(1));
    assert_eq!(determine_target_service("query { orders { id } }", &prefixes), Some(0));
    assert_eq!(determine_target_service("{ health }", &prefixes), Some(0));
    assert_eq!(determine_target_service("{ users }", &[]), None);
    let slashes = vec!["//a".to_string(), "/".to_string()];
    assert_eq!(determine_target_service("zzz", &slashes), Some(1));
}

#[test]
fn metric_label_is_first_segment() {
    assert_eq!(extract_prefix("/api/users/7"), "/api");
    assert_eq!(extract_prefix("/api"), "/api");
    assert_eq!(extract_prefix("/"), "/");
    assert_eq!(extract_prefix("health"), "health");
    assert_eq!(extract_prefix("a/b/c"), "/b");
}

#[test]
fn alert_targets_follow_the_switches() {
    let mut m = AlertManager::new(Some("https://hooks.example.com/x".to_string()), true, true, false);
    assert_eq!(m.alert_target(AlertKind::ServiceDown).as_deref(), Some("https://hooks.example.com/x"));
    assert_eq!(m.alert_target(AlertKind::ServiceUp), None);
    assert_eq!(m.alert_target(AlertKind::Generic).as_deref(), Some("https://hooks.example.com/x"));
    m.update_config(Some(String::new()), true, true, true);
    assert_eq!(m.alert_target(AlertKind::Generic), None);
    m.update_config(Some("https://h".to_string()), false, true, true);
    assert_eq!(m.alert_target(AlertKind::ServiceDown), None);
    let (url, on, down, up) = m.snapshot();
    assert_eq!(url.as_deref(), Some("https://h"));
    assert!(!on && down && up);
}

#[test]
fn interceptor_chain_stops_at_first_answer() {
    let mut chain = InterceptorChain::new();
    chain.add(Box::new(SecurityHeaders::new(100, false, None)));
    chain.add(Box::new(SizeLimiter::new(10)));
    let mut ctx = InterceptorContext {
        method: "POST".to_string(),
        path: "/x".to_string(),
        ip: "1.2.3.4".to_string(),
        headers: vec![],
        body_size: 11,
        service_name: None,
        metadata: vec![],
    };
    assert!(matches!(chain.run_request(&mut ctx), Some(InterceptorAction::Reject { status: 413, .. })));
    ctx.body_size = 5;
    assert!(matches!(chain.run_request(&mut ctx), Some(InterceptorAction::ModifyHeaders { .. })));
    assert!(chain.run_response(&mut ctx, 200, b"ok").is_none());
    assert!(InterceptorChain::new().run_request(&mut ctx).is_none());
}
