use xiranet::gateway::cache::ResponseCache;
use xiranet::gateway::retry::{HttpMethod, RetryPolicy};
use xiranet::gateway::{request_is_cacheable, response_is_cacheable};

#[test]
fn test_authenticated_requests_bypass_cache() {
    let req = vec![("Authorization".to_string(), Some("Bearer secret".to_string()))];
    assert!(!request_is_cacheable(&req));
}

#[test]
fn test_cookie_requests_bypass_cache() {
    let req = vec![("Cookie".to_string(), Some("session=secret".to_string()))];
    assert!(!request_is_cacheable(&req));
}

#[test]
fn test_plain_get_requests_can_be_cached() {
    let req: Vec<(String, Option<String>)> = vec![];
    assert!(request_is_cacheable(&req));
}

#[test]
fn test_set_cookie_responses_are_not_cacheable() {
    let headers = vec![("set-cookie".to_string(), "session=secret".to_string())];
    assert!(!response_is_cacheable(&headers));
}

#[test]
fn test_private_cache_control_responses_are_not_cacheable() {
    let headers = vec![("cache-control".to_string(), "private, max-age=60".to_string())];
    assert!(!response_is_cacheable(&headers));
}

#[test]
fn test_disabling_cache_evicts_entries() {
    let mut cache = ResponseCache::new(16, 60, true);
    cache.put("GET:/api".to_string(), 200, vec![], b"ok".to_vec());
    assert!(cache.get("GET:/api", &[]).is_some());

    cache.set_enabled(false);

    assert!(cache.get("GET:/api", &[]).is_none());
}

#[test]
fn test_ttl_update_expires_existing_entries() {
    let mut cache = ResponseCache::new(16, 60, true);
    cache.put("GET:/api".to_string(), 200, vec![], b"ok".to_vec());

    cache.set_ttl_secs(0);

    assert!(cache.get("GET:/api", &[]).is_none());
}

#[test]
fn vary_cookie_response_is_not_cached() {
    let mut cache = ResponseCache::new(16, 60, true);
    cache.put(
        "GET:/api".to_string(),
        200,
        vec![("Vary".to_string(), "Cookie".to_string())],
        b"per-user".to_vec(),
    );
    assert!(cache.get("GET:/api", &[]).is_none());
}

#[test]
fn vary_star_response_is_not_cached() {
    let mut cache = ResponseCache::new(16, 60, true);
    cache.put(
        "GET:/api".to_string(),
        200,
        vec![("Vary".to_string(), "*".to_string())],
        b"any".to_vec(),
    );
    assert!(cache.get("GET:/api", &[]).is_none());
}

#[test]
fn set_cookie_response_is_not_cached() {
    let mut cache = ResponseCache::new(16, 60, true);
    cache.put(
        "GET:/api".to_string(),
        200,
        vec![("Set-Cookie".to_string(), "sid=abc".to_string())],
        b"x".to_vec(),
    );
    assert!(cache.get("GET:/api", &[]).is_none());
}

#[test]
fn test_only_safe_methods_are_retryable() {
    assert!(RetryPolicy::method_is_retryable(&HttpMethod::Get));
    assert!(RetryPolicy::method_is_retryable(&HttpMethod::Head));
    assert!(RetryPolicy::method_is_retryable(&HttpMethod::Options));
    assert!(!RetryPolicy::method_is_retryable(&HttpMethod::Post));
    assert!(!RetryPolicy::method_is_retryable(&HttpMethod::Patch));
    assert!(!RetryPolicy::method_is_retryable(&HttpMethod::Delete));
}

#[test]
fn put_delete_retried_only_with_idempotency_key() {
    let empty: Vec<String> = vec![];
    assert!(!RetryPolicy::is_request_retryable(&HttpMethod::Put, &empty));
    assert!(!RetryPolicy::is_request_retryable(&HttpMethod::Delete, &empty));

    let with_key = vec!["idempotency-key".to_string()];
    assert!(RetryPolicy::is_request_retryable(&HttpMethod::Put, &with_key));
    assert!(RetryPolicy::is_request_retryable(&HttpMethod::Delete, &with_key));

    assert!(!RetryPolicy::is_request_retryable(&HttpMethod::Post, &with_key));
}
