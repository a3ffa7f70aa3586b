use xiranet::gateway::canary::{select_canary_or_lb_with, CanaryConfig};
use xiranet::gateway::connection_pool::PoolStats;
use xiranet::gateway::edge_cache::{CacheDecision, EdgeCache};

fn cfg() -> CanaryConfig {
    CanaryConfig {
        enabled: true,
        weights: vec![("http://a".to_string(), 30), ("http://b".to_string(), 70)],
        header_name: Some("X-Canary".to_string()),
        header_value: Some("yes".to_string()),
        canary_upstream: Some("http://canary".to_string()),
    }
}

#[test]
fn edge_cache_hit_then_not_modified() {
    let mut c = EdgeCache::new(10, true);
    let etag = c.store_at("GET:/a".to_string(), b"hello".to_vec(), "text/plain".to_string(), 200, vec![], 60, 1000);
    assert_eq!(etag.len(), 32);
    match c.check_at("GET:/a", None, 1010) {
        CacheDecision::Hit(e) => {
            assert_eq!(e.body, b"hello".to_vec());
            assert_eq!(e.hits, 1);
            assert_eq!(e.etag, etag);
        }
        _ => panic!("expected a hit"),
    }
    let quoted = format!("\"{}\"", etag);
    match c.check_at("GET:/a", Some(&quoted), 1020) {
        CacheDecision::NotModified { etag: t } => assert_eq!(t, etag),
        _ => panic!("expected not modified"),
    }
    match c.check_at("GET:/a", Some(&etag), 1060) {
        CacheDecision::NotModified { .. } => {}
        _ => panic!("expected not modified at the end of the lifetime"),
    }
    assert_eq!(c.stats().total_hits, 3);
}

#[test]
fn edge_cache_expired_entry_is_dropped() {
    let mut c = EdgeCache::new(10, true);
    c.store_at("k".to_string(), b"x".to_vec(), "t".to_string(), 200, vec![], 5, 100);
    assert!(matches!(c.check_at("k", None, 106), CacheDecision::Miss));
    assert_eq!(c.stats().entries, 0);
}

#[test]
fn edge_cache_disabled_misses() {
    let mut c = EdgeCache::new(10, false);
    c.store_at("k".to_string(), b"x".to_vec(), "t".to_string(), 200, vec![], 60, 100);
    assert!(matches!(c.check_at("k", None, 100), CacheDecision::Miss));
    assert!(!c.is_enabled());
}

#[test]
fn edge_cache_evicts_oldest_when_full() {
    let mut c = EdgeCache::new(2, true);
    c.store_at("a".to_string(), b"1".to_vec(), "t".to_string(), 200, vec![], 600, 10);
    c.store_at("b".to_string(), b"2".to_vec(), "t".to_string(), 200, vec![], 600, 5);
    c.store_at("c".to_string(), b"3".to_vec(), "t".to_string(), 200, vec![], 600, 20);
    assert_eq!(c.stats().entries, 2);
    assert!(matches!(c.check_at("b", None, 21), CacheDecision::Miss));
    assert!(matches!(c.check_at("a", None, 21), CacheDecision::Hit(_)));
    assert!(matches!(c.check_at("c", None, 21), CacheDecision::Hit(_)));
    c.clear();
    assert_eq!(c.stats().entries, 0);
}

#[test]
fn edge_cache_etag_is_sha256_prefix() {
    let mut c = EdgeCache::new(4, true);
    let etag = c.store_at("k".to_string(), b"abc".to_vec(), "t".to_string(), 200, vec![], 1, 0);
    assert_eq!(etag, "ba7816bf8f01cfea414140de5dae2223");
}

#[test]
fn canary_header_routes_to_canary() {
    let c = Some(cfg());
    let h = vec![("x-canary".to_string(), Some("yes".to_string()))];
    assert_eq!(select_canary_or_lb_with(&c, &h, &[], 0), Some("http://canary".to_string()));
    let other = vec![("x-canary".to_string(), Some("no".to_string()))];
    assert_eq!(select_canary_or_lb_with(&c, &other, &[], 29), Some("http://a".to_string()));
    assert_eq!(select_canary_or_lb_with(&c, &other, &[], 30), Some("http://b".to_string()));
    assert_eq!(select_canary_or_lb_with(&c, &other, &[], 129), Some("http://a".to_string()));
}

#[test]
fn canary_off_or_absent_leaves_choice_to_balancer() {
    let mut off = cfg();
    off.enabled = false;
    let h = vec![("x-canary".to_string(), Some("yes".to_string()))];
    assert_eq!(select_canary_or_lb_with(&Some(off), &h, &[], 5), None);
    assert_eq!(select_canary_or_lb_with(&None, &h, &[], 5), None);
    let zero = CanaryConfig { weights: vec![("http://a".to_string(), 0)], ..cfg() };
    assert_eq!(zero.select_upstream_with(&["http://x".to_string()], 7), None);
    assert!(CanaryConfig::default().check_header_routing(&h).is_none());
}

#[test]
fn pool_stats_count() {
    let mut s = PoolStats::default();
    s.record_connection(true);
    s.record_connection(false);
    s.record_failure();
    assert_eq!((s.total_connections, s.reused_connections, s.failed_connections), (2, 1, 1));
}
