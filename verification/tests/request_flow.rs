use xiranet::admin::openapi::openapi_paths;
use xiranet::cli::commands::import_entry;
use xiranet::config::ServiceConfig;
use xiranet::gateway::cache::ResponseCache;
use xiranet::gateway::circuit_breaker::{CircuitBreakerManager, CircuitState};
use xiranet::gateway::load_balancer::LoadBalancer;
use xiranet::gateway::proxy::{unreachable_result, ProxyResult};
use xiranet::gateway::request_flow::{finish_request, plan_request, EarlyReply, GatewayCore, RequestFacts};

fn service(name: &str, prefix: &str, upstream: &str) -> ServiceConfig {
    ServiceConfig {
        name: name.to_string(),
        prefix: prefix.to_string(),
        upstream: upstream.to_string(),
        health_endpoint: "/health".to_string(),
        upstreams: vec![],
        load_balance: None,
        version: None,
        transform: None,
        validation_schema: None,
        ip_whitelist: vec![],
        ip_blacklist: vec!["10.0.0.9".to_string()],
    }
}

fn gateway_core(cache_on: bool) -> GatewayCore {
    GatewayCore {
        services: vec![service("api", "/api", "http://up:1"), service("users", "/api/users", "http://up:2")],
        breakers: CircuitBreakerManager::new(1, 30, 1),
        balancer: LoadBalancer::new(),
        cache: ResponseCache::new(8, 60, cache_on),
    }
}

fn facts(method: &str, path: &str, ip: &str) -> RequestFacts {
    RequestFacts {
        method: method.to_string(),
        path: path.to_string(),
        query: "a=1".to_string(),
        peer_ip: Some(ip.to_string()),
        scheme: "http".to_string(),
        headers: vec![],
    }
}

#[test]
fn request_flow_routes_filters_and_gates() {
    let mut c = gateway_core(false);
    assert!(matches!(plan_request(&mut c, &facts("GET", "/xira/health", "1.1.1.1"), 0, 0), Err(EarlyReply::Reserved)));
    assert!(matches!(plan_request(&mut c, &facts("GET", "/other", "1.1.1.1"), 0, 0), Err(EarlyReply::NoRoute)));
    assert!(matches!(plan_request(&mut c, &facts("GET", "/api/x", "10.0.0.9"), 0, 0), Err(EarlyReply::IpRefused(_))));
    let plan = plan_request(&mut c, &facts("GET", "/api/users/7", "1.1.1.1"), 0, 0).ok().unwrap();
    assert_eq!(plan.service, 1);
    assert_eq!(plan.url, "http://up:2/7?a=1");
    assert!(plan.cache_key.is_none());
    finish_request(&mut c, &plan, &unreachable_result(), 1000);
    assert!(matches!(
        plan_request(&mut c, &facts("GET", "/api/users/7", "1.1.1.1"), 2000, 0),
        Err(EarlyReply::Unavailable(CircuitState::Open))
    ));
    assert!(matches!(plan_request(&mut c, &facts("BREW", "/api/x", "1.1.1.1"), 2000, 0), Err(EarlyReply::BadMethod(_))));
    // The reset timeout is 30 s after the failure at 1000 ms.
    assert!(matches!(
        plan_request(&mut c, &facts("GET", "/api/users/7", "1.1.1.1"), 30_999, 0),
        Err(EarlyReply::Unavailable(CircuitState::Open))
    ));
    let probe = plan_request(&mut c, &facts("GET", "/api/users/7", "1.1.1.1"), 31_000, 0).ok().unwrap();
    assert_eq!(probe.service, 1);
    assert_eq!(c.breakers.get_state(1), CircuitState::HalfOpen);
}

#[test]
fn request_flow_stores_and_serves_from_cache() {
    let mut c = gateway_core(true);
    let plan = plan_request(&mut c, &facts("GET", "/api/x", "1.1.1.1"), 0, 0).ok().unwrap();
    assert_eq!(plan.cache_key.as_deref(), Some("GET:/api/x?a=1"));
    finish_request(&mut c, &plan, &ProxyResult::upstream(200, vec![], b"hi".to_vec()), 10);
    match plan_request(&mut c, &facts("GET", "/api/x", "1.1.1.1"), 20, 0) {
        Err(EarlyReply::CacheHit(status, _, body)) => {
            assert_eq!(status, 200);
            assert_eq!(body, b"hi".to_vec());
        }
        _ => panic!("expected a cache hit"),
    }
    let post = plan_request(&mut c, &facts("POST", "/api/x", "1.1.1.1"), 30, 0).ok().unwrap();
    assert!(post.cache_key.is_none());
}

#[test]
fn unreachable_answer_is_json_502() {
    let r = unreachable_result();
    assert_eq!(r.status, 502);
    assert_eq!(r.headers, vec![("content-type".to_string(), "application/json".to_string())]);
}

#[test]
fn openapi_has_one_entry_per_service() {
    let docs = openapi_paths(&[service("api", "/api", "http://up:1")]);
    assert_eq!(docs.len(), 1);
    assert_eq!(docs[0].path, "/api{path}");
    assert_eq!(docs[0].get_summary, "GET /api");
    assert_eq!(docs[0].post_summary, "POST /api");
    assert_eq!(docs[0].description, "Proxied to http://up:1");
    assert_eq!(docs[0].tag, "api");
}

#[test]
fn import_entries_take_defaults_and_skip_missing_upstreams() {
    let e = import_entry(None, None, Some("http://u")).unwrap();
    assert_eq!((e.name.as_str(), e.prefix.as_str(), e.upstream.as_str()), ("unknown", "/", "http://u"));
    assert!(import_entry(Some("a"), Some("/a"), Some("")).is_none());
    assert!(import_entry(Some("a"), Some("/a"), None).is_none());
}
