use xiranet::alerting::webhooks::WebhookRegistry;
use xiranet::automation::cron::{CronSchedule, CronScheduler, JobOutcome};
use xiranet::automation::event_bus::EventBus;
use xiranet::automation::workflows::{success_status, WorkflowEngine, WorkflowStatus};
use xiranet::config::TransformConfig;
use xiranet::datapipeline::pipeline::CdcWatchers;
use xiranet::deployment::releases::{ReleaseManager, ReleaseStrategy};
use xiranet::gateway::interceptors::{InterceptorChain, SecurityHeaders, SizeLimiter};
use xiranet::gateway::transform::TransformRules;
use xiranet::identity::mfa::code_from_tag;
use xiranet::identity::users::UserRole;
use xiranet::ops::incidents::{IncidentManager, IncidentStatus, Severity};

fn hex(s: &str) -> Vec<u8> {
    (0..s.len()).step_by(2).map(|i| u8::from_str_radix(&s[i..i + 2], 16).unwrap()).collect()
}

#[test]
fn custom_role_has_viewer_level() {
    assert_eq!(UserRole::Custom("ops".to_string()).level(), UserRole::Viewer.level());
    assert_eq!(UserRole::Viewer.level(), 20);
    assert_eq!(UserRole::SuperAdmin.level(), 100);
    assert_eq!(UserRole::Admin.level(), 80);
    assert_eq!(UserRole::Developer.level(), 60);
    assert_eq!(UserRole::Service.level(), 40);
}

#[test]
fn truncation_of_rfc4226_tags() {
    // The worked example of RFC 4226, section 5.4.
    assert_eq!(code_from_tag(&hex("1f8698690e02ca16618550ef7f19da8e945b555a")), b"872921".to_vec());
    // Counter 0 under the RFC 4226 test key (appendix D).
    assert_eq!(code_from_tag(&hex("cc93cf18508d94934c64b65d8ba7667fb7cde4b0")), b"755224".to_vec());
}

#[test]
fn registered_webhook_keeps_its_fields() {
    let mut r = WebhookRegistry::new();
    let id = r.register("n".to_string(), "https://h/x".to_string(), vec!["deploy".to_string()], Some("k".to_string()));
    assert_eq!(id.len(), 36);
    let t = r.targets("deploy");
    assert_eq!(t.len(), 1);
    assert_eq!((t[0].id.as_str(), t[0].url.as_str(), t[0].name.as_str()), (id.as_str(), "https://h/x", "n"));
    assert_eq!(t[0].secret.as_deref(), Some("k"));
    assert!(r.targets("other").is_empty());
}

#[test]
fn created_incident_release_workflow_and_watcher() {
    let mut m = IncidentManager::new();
    let id = m.create("db down".to_string(), Severity::Critical, vec!["db".to_string()]);
    let i = m.at(0);
    assert_eq!((i.id.as_str(), i.title.as_str(), i.status), (id.as_str(), "db down", IncidentStatus::Investigating));
    assert_eq!(i.timeline[0].message, "Incident created: db down");

    let mut rm = ReleaseManager::new();
    let rid = rm.create("svc".to_string(), "http://blue".to_string(), "http://green".to_string(), ReleaseStrategy::BlueGreen, 0);
    assert_eq!(rm.active_upstream(&rid), Some("http://blue".to_string()));
    assert_eq!(rm.switch(&rid), Some("green".to_string()));
    assert_eq!(rm.active_upstream(&rid), Some("http://green".to_string()));

    let mut we = WorkflowEngine::new();
    let wid = we.create("deploy".to_string(), vec![]);
    let w = we.get(&wid).unwrap();
    assert_eq!((w.name.as_str(), w.status, w.current_step), ("deploy", WorkflowStatus::Pending, 0));

    let mut cw = CdcWatchers::new();
    cw.add_watcher_with_id("a".to_string(), "http://e1".to_string(), "http://w1".to_string());
    let cid = cw.add_watcher("http://e2".to_string(), "http://w2".to_string());
    assert_eq!(cw.count(), 2);
    assert_eq!(cw.at(0).endpoint, "http://e1");
    assert_eq!((cw.at(1).id.as_str(), cw.at(1).endpoint.as_str()), (cid.as_str(), "http://e2"));
}

#[test]
fn published_event_carries_its_fields() {
    let mut bus = EventBus::new(2);
    let id = bus.publish("orders", "svc", "{}".to_string());
    let e = bus.recent_events(1);
    assert_eq!((e[0].id.as_str(), e[0].topic.as_str(), e[0].source.as_str(), e[0].data.as_str()), (id.as_str(), "orders", "svc", "{}"));
    bus.publish("a", "s", String::new());
    bus.publish("b", "s", String::new());
    assert_eq!(bus.recent_events(10).len(), 2);
}

#[test]
fn job_outcome_counts_non_2xx_as_failure() {
    let mut s = CronScheduler::new();
    let id = s.add_job("ping".to_string(), CronSchedule::EverySeconds(30), "http://x".to_string(), "GET".to_string()).unwrap();
    assert!(s.complete_job(&id, 1, 5, JobOutcome::Response { status: 204 }));
    assert_eq!(s.get_job(&id).unwrap().failure_count, 0);
    assert!(s.complete_job(&id, 2, 5, JobOutcome::Response { status: 302 }));
    assert_eq!(s.get_job(&id).unwrap().failure_count, 1);
    assert!(s.complete_job(&id, 3, 5, JobOutcome::Error));
    assert_eq!(s.get_job(&id).unwrap().failure_count, 2);
    assert!(success_status(200) && success_status(299) && !success_status(300) && !success_status(199));
}

#[test]
fn interceptor_count_grows_by_one_per_add() {
    let mut chain = InterceptorChain::new();
    assert_eq!(chain.count(), 0);
    chain.add(Box::new(SizeLimiter::new(10)));
    chain.add(Box::new(SecurityHeaders::new(100, false, None)));
    chain.add(Box::new(SizeLimiter::new(5)));
    assert_eq!(chain.count(), 3);
}

#[test]
fn header_names_are_lowered_and_invalid_ones_skipped() {
    let rules = TransformRules::from_config(&TransformConfig {
        add_request_headers: vec![("X-Env".to_string(), "prod".to_string()), ("bad name".to_string(), "v".to_string())],
        remove_request_headers: vec!["X-Debug".to_string()],
        add_response_headers: vec![],
        remove_response_headers: vec![],
    });
    let mut h = vec![("x-debug".to_string(), "1".to_string()), ("accept".to_string(), "*/*".to_string())];
    rules.apply_request_headers(&mut h);
    assert_eq!(h, vec![("accept".to_string(), "*/*".to_string()), ("x-env".to_string(), "prod".to_string())]);
}

#[test]
fn subscriptions_are_kept_per_topic_without_repeats() {
    let mut bus = EventBus::new(4);
    bus.subscribe("orders", "a");
    bus.subscribe("orders", "b");
    bus.subscribe("orders", "a");
    bus.subscribe("users", "c");
    assert_eq!(bus.topic_subscribers("orders"), vec!["a".to_string(), "b".to_string()]);
    assert_eq!(bus.topic_subscribers("users"), vec!["c".to_string()]);
    assert!(bus.topic_subscribers("none").is_empty());
    assert_eq!(bus.list_topics(), vec!["orders".to_string(), "users".to_string()]);
}

#[test]
fn invalidated_session_leaves_its_users_list() {
    let mut m = xiranet::identity::sessions::SessionManager::new(5);
    m.create_at("u", "t1", "ip", "ua", 100, 0);
    m.create_at("u", "t2", "ip", "ua", 100, 0);
    assert!(m.invalidate("t1"));
    assert!(!m.invalidate("t1"));
    assert!(m.validate_at("t2", 1).is_some());
    assert_eq!(m.invalidate_all("u"), 1);
    assert!(m.validate_at("t2", 1).is_none());
}

#[test]
fn breaker_report_lists_each_breaker_once() {
    let mut b = xiranet::gateway::circuit_breaker::CircuitBreakerManager::new(2, 30, 1);
    b.record_failure(7, 1_000);
    b.record_failure(7, 2_000);
    b.record_failure(9, 2_000);
    let mut rows = b.report(5_000);
    rows.sort_by_key(|r| r.service_id);
    assert_eq!(rows.len(), 2);
    assert_eq!((rows[0].service_id, rows[0].failure_count, rows[0].since_secs), (7, 2, 3));
    assert_eq!(rows[0].state, xiranet::gateway::circuit_breaker::CircuitState::Open);
    assert_eq!((rows[1].service_id, rows[1].failure_count, rows[1].state), (9, 1, xiranet::gateway::circuit_breaker::CircuitState::Closed));
}
