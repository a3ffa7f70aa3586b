use xiranet::alerting::webhooks::{sign_delivery, WebhookRegistry};
use xiranet::automation::cron::{CronSchedule, CronScheduler, JobOutcome};
use xiranet::crypto::hex_encode;
use xiranet::deployment::feature_flags::FeatureFlagManager;
use xiranet::deployment::releases::{ReleaseManager, ReleaseStatus, ReleaseStrategy};
use xiranet::fmt::decimal_string;
use xiranet::gateway::circuit_breaker::{CircuitBreakerManager, CircuitState};
use xiranet::gateway::load_balancer::{LoadBalanceStrategy, LoadBalancer};
use xiranet::gateway::retry::{AttemptOutcome, HttpMethod, RetryPolicy, RetryStep};
use xiranet::identity::sessions::{hash_token, SessionManager};
use xiranet::identity::users::{check_lockout, count_failure, FailedAttempt, UserRole};

#[test]
fn breaker_opens_at_threshold_and_recovers() {
    let mut m = CircuitBreakerManager::new(3, 10, 2);
    assert!(m.allow_request(1, 0).is_ok());
    m.record_failure(1, 0);
    m.record_failure(1, 1_000);
    assert_eq!(m.get_state(1), CircuitState::Closed);
    m.record_failure(1, 2_000);
    assert_eq!(m.get_state(1), CircuitState::Open);
    assert_eq!(m.allow_request(1, 11_999), Err(CircuitState::Open));
    assert!(m.allow_request(1, 12_000).is_ok());
    assert_eq!(m.get_state(1), CircuitState::HalfOpen);
    assert!(m.allow_request(1, 12_000).is_ok());
    assert_eq!(m.allow_request(1, 12_000), Err(CircuitState::HalfOpen));
    m.record_success(1, 13_000);
    m.record_success(1, 13_000);
    assert_eq!(m.get_state(1), CircuitState::Closed);
    assert_eq!(m.get_state(99), CircuitState::Closed);
}

#[test]
fn breaker_half_open_failure_reopens() {
    let mut m = CircuitBreakerManager::new(1, 5, 1);
    m.record_failure(7, 100_000);
    assert_eq!(m.get_state(7), CircuitState::Open);
    assert!(m.allow_request(7, 105_000).is_ok());
    m.record_failure(7, 106_000);
    assert_eq!(m.get_state(7), CircuitState::Open);
    assert_eq!(m.allow_request(7, 107_000), Err(CircuitState::Open));
    assert_eq!(CircuitState::HalfOpen.label(), "HALF_OPEN");
    let (t, r, h) = m.snapshot_config();
    assert_eq!((t, r, h), (1, 5, 1));
    m.update_config(0, 9, 0);
    assert_eq!(m.snapshot_config(), (1, 9, 1));
}

#[test]
fn round_robin_cycles_and_release_undoes_acquire() {
    let mut lb = LoadBalancer::new();
    let ups = vec!["a".to_string(), "b".to_string(), "c".to_string()];
    let picks: Vec<String> = (0..4).map(|_| lb.select_upstream(1, &ups, &LoadBalanceStrategy::RoundRobin, 0)).collect();
    assert_eq!(picks, vec!["a", "b", "c", "a"]);
    assert_eq!(lb.select_upstream(2, &ups, &LoadBalanceStrategy::Random, 7), "b");
    lb.acquire_connection("a");
    lb.acquire_connection("a");
    lb.acquire_connection("b");
    assert_eq!(lb.select_upstream(3, &ups, &LoadBalanceStrategy::LeastConnections, 0), "c");
    lb.release_connection("a");
    assert_eq!(lb.connection_count("a"), 1);
    lb.release_connection("z");
    assert_eq!(lb.connection_count("z"), 0);
    assert_eq!(lb.select_upstream(4, &[], &LoadBalanceStrategy::RoundRobin, 0), "");
    assert_eq!(LoadBalanceStrategy::from_str("Least-Connections"), LoadBalanceStrategy::LeastConnections);
    assert_eq!(LoadBalanceStrategy::from_str("nope"), LoadBalanceStrategy::RoundRobin);
}

#[test]
fn retries_stop_at_the_limit() {
    let p = RetryPolicy::new(2, 100);
    assert_eq!(p.next_step(true, 0, &AttemptOutcome::Status(503)), RetryStep::Retry);
    assert_eq!(p.next_step(true, 1, &AttemptOutcome::ConnectOrTimeout), RetryStep::Retry);
    assert_eq!(p.next_step(true, 2, &AttemptOutcome::Status(503)), RetryStep::Finish);
    assert_eq!(p.next_step(true, 0, &AttemptOutcome::Status(404)), RetryStep::Finish);
    assert_eq!(p.next_step(false, 0, &AttemptOutcome::Status(500)), RetryStep::Finish);
    assert_eq!(p.next_step(true, 0, &AttemptOutcome::OtherError), RetryStep::Finish);
    assert_eq!(HttpMethod::parse("PATCH"), HttpMethod::Patch);
    assert_eq!(HttpMethod::parse("PURGE"), HttpMethod::Other("PURGE".to_string()));
}

#[test]
fn lockout_after_ten_failures_within_window() {
    let mut fa: Option<FailedAttempt> = None;
    for _ in 0..10 {
        fa = Some(count_failure(fa, 1000));
    }
    assert_eq!(fa.unwrap().count, 10);
    assert_eq!(check_lockout(fa, 1100), (Some(800), false));
    assert_eq!(check_lockout(fa, 1900), (None, true));
    let few = Some(FailedAttempt { count: 9, first_failure_at: 1000 });
    assert_eq!(check_lockout(few, 1001), (None, false));
}

#[test]
fn roles_order() {
    assert!(UserRole::SuperAdmin.satisfies(&UserRole::Viewer));
    assert!(!UserRole::Viewer.satisfies(&UserRole::Admin));
    assert!(!UserRole::Custom("ops".to_string()).satisfies(&UserRole::Viewer));
    assert_eq!(UserRole::parse_builtin("Developer"), Some(UserRole::Developer));
    assert_eq!(UserRole::parse_builtin("developer"), None);
}

#[test]
fn sessions_keep_the_newest_within_the_limit() {
    let mut m = SessionManager::new(2);
    m.create_at("u", "t1", "ip", "Mozilla (iPhone)", 100, 0);
    m.create_at("u", "t2", "ip", "ua", 100, 1);
    m.create_at("u", "t3", "ip", "ua", 100, 2);
    assert!(m.validate_at("t1", 3).is_none());
    let s = m.validate_at("t3", 3).unwrap();
    assert_eq!(s.token, "t3");
    assert_eq!(s.last_activity, 3);
    assert!(m.validate_at("t2", 101).is_some());
    assert!(m.validate_at("t2", 102).is_none());
    assert_eq!(m.invalidate_all("u"), 2);
    assert_eq!(m.active_count(), 0);
    assert_eq!(hash_token("tok"), "1a7674eb4ee78df7e1ac439a93c3fa8e3c945784d4dec9fd8e3011738b2f1d62");
}

#[test]
fn webhook_signature_and_targets() {
    assert_eq!(
        sign_delivery("secret", 1_700_000_000, "{\"a\":1}"),
        "sha256=49f24e537407743fa4a0242bb63b94b9a47ee99cbbe071ccd8a22550ae411686"
    );
    let mut r = WebhookRegistry::new();
    r.register_with_id("w1".to_string(), "all".to_string(), "http://a".to_string(), vec!["*".to_string()], None);
    r.register_with_id(
        "w2".to_string(),
        "deploys".to_string(),
        "http://b".to_string(),
        vec!["deploy".to_string()],
        Some("k".to_string()),
    );
    assert_eq!(r.targets("deploy").len(), 2);
    assert_eq!(r.targets("alert").len(), 1);
    r.record_delivery("w2", false);
    let l = r.list();
    let w2 = l.iter().find(|s| s.id == "w2").unwrap();
    assert_eq!((w2.delivery_count, w2.failure_count, w2.has_secret), (0, 1, true));
    r.record_delivery("w2", true);
    let l = r.list();
    let w2 = l.iter().find(|s| s.id == "w2").unwrap();
    assert_eq!((w2.delivery_count, w2.failure_count), (1, 1));
    assert!(r.remove("w1"));
    assert_eq!(r.count(), 1);
}

#[test]
fn cron_runs_due_jobs_once() {
    let mut s = CronScheduler::new();
    s.add_job_with_id(
        "j".to_string(),
        "ping".to_string(),
        CronSchedule::EverySeconds(30),
        "http://x".to_string(),
        "GET".to_string(),
        100,
    );
    assert_eq!(s.get_job("j").unwrap().next_run, 130);
    assert!(s.take_due(120).is_empty());
    let due = s.take_due(130);
    assert_eq!(due.len(), 1);
    assert!(s.take_due(200).is_empty());
    assert!(s.complete_job("j", 130, 5, JobOutcome::Response { status: 500 }));
    let j = s.get_job("j").unwrap();
    assert_eq!((j.run_count, j.failure_count, j.last_status, j.next_run), (1, 1, Some(500), 160));
    assert_eq!(s.take_due(200).len(), 1);
    assert_eq!(CronSchedule::Daily { hour: 1, minute: 30 }.next_after(86_400 + 60), 86_400 + 5_400);
    assert_eq!(CronSchedule::Daily { hour: 0, minute: 0 }.next_after(86_400), 2 * 86_400);
    assert_eq!(CronSchedule::EveryMinutes(0).interval_secs(), 60);
    assert!(s.remove_job("j"));
    assert_eq!(s.job_count(), 0);
}

#[test]
fn release_switch_twice_restores() {
    let mut m = ReleaseManager::new();
    m.create_with(
        "r".to_string(),
        "svc".to_string(),
        "http://blue".to_string(),
        "http://green".to_string(),
        ReleaseStrategy::BlueGreen,
        0,
        1,
    );
    assert_eq!(m.active_upstream("r"), Some("http://blue".to_string()));
    assert_eq!(m.switch_at("r", 2), Some("green".to_string()));
    assert_eq!(m.active_upstream("r"), Some("http://green".to_string()));
    assert_eq!(m.switch_at("r", 3), Some("blue".to_string()));
    assert!(!m.check_rollback_at("r", false, 4));
    assert!(m.check_rollback_at("r", true, 5));
    assert_eq!(m.active_upstream("r"), Some("http://green".to_string()));
    assert_eq!(m.switch_at("r", 6), None);
    assert!(!m.check_rollback_at("r", true, 7));
    assert_eq!(m.switch_at("missing", 1), None);
    let _ = ReleaseStatus::RolledBack;
}

#[test]
fn disabled_flag_is_off_and_toggles() {
    let mut f = FeatureFlagManager::new();
    f.create("x".to_string(), String::new(), false, 100);
    assert!(!f.evaluate_with_bucket("x", &[], 0));
    assert_eq!(f.toggle("x"), Some(true));
    assert!(f.evaluate_with_bucket("x", &[], 99));
    assert_eq!(f.toggle("nope"), None);
    assert_eq!(f.count(), 1);
}

#[test]
fn formats() {
    assert_eq!(decimal_string(0), "0");
    assert_eq!(decimal_string(18_446_744_073_709_551_615), "18446744073709551615");
    assert_eq!(hex_encode(&[0x00, 0xab, 0x0f]), "00ab0f");
}
