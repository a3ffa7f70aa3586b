//! The decisions of the gateway's request path, in the order a request meets
//! them: reserved paths, the per-service address filter, the cache key, the
//! upstream URL, the retry choice, the breaker outcome and the cache store.
//! The caller performs the exchange between them.
use vstd::prelude::*;
use crate::text::{chars_of, string_of, concat, eq_str, starts_with, slice, has_prefix, contains, contains_seq};
use crate::gateway::retry::{HttpMethod, method_named, safe_method, RetryPolicy};
use crate::gateway::proxy::ProxyResult;
use crate::gateway::cache::ResponseCache;

verus! {

/// Paths the gateway never proxies: its own admin area and endpoints.
pub open spec fn reserved_path(p: Seq<char>) -> bool {
    has_prefix(p, "/xira"@) || p == "/metrics"@ || p == "/ws"@ || p == "/dashboard"@
}

/// The service a path is routed to: among the prefixes the path starts
/// with, the longest; the first listed among equally long ones.
pub open spec fn routes_to(path: Seq<char>, prefixes: Seq<String>, i: int) -> bool {
    &&& 0 <= i < prefixes.len()
    &&& has_prefix(path, prefixes[i]@)
    &&& forall|j: int| 0 <= j < prefixes.len() && has_prefix(path, #[trigger] prefixes[j]@) ==> (prefixes[j]@.len()
        < prefixes[i]@.len() || (prefixes[j]@.len() == prefixes[i]@.len() && i <= j))
}

/// Finds the service for a path by its prefix.
pub fn lookup_prefix(path: &str, prefixes: &[String]) -> (r: Option<usize>)
    ensures
        match r {
            Some(i) => routes_to(path@, prefixes@, i as int),
            None => forall|j: int| 0 <= j < prefixes@.len() ==> !has_prefix(path@, #[trigger] prefixes@[j]@),
        },
{
    let p = chars_of(path);
    let mut best: Option<usize> = None;
    let mut best_len: usize = 0;
    let mut i: usize = 0;
    while i < prefixes.len()
        invariant
            i <= prefixes@.len(),
            p@ == path@,
            match best {
                Some(b) => b < i && has_prefix(path@, prefixes@[b as int]@) && best_len == prefixes@[b as int]@.len()
                    && forall|j: int| 0 <= j < i && has_prefix(path@, #[trigger] prefixes@[j]@) ==> (prefixes@[j]@.len()
                    < best_len || (prefixes@[j]@.len() == best_len && b <= j)),
                None => forall|j: int| 0 <= j < i ==> !has_prefix(path@, #[trigger] prefixes@[j]@),
            },
        decreases prefixes@.len() - i,
    {
        let c = chars_of(prefixes[i].as_str());
        if starts_with(p.as_slice(), c.as_slice()) {
            match best {
                Some(_) => {
                    if c.len() > best_len {
                        best = Some(i);
                        best_len = c.len();
                    }
                },
                None => {
                    best = Some(i);
                    best_len = c.len();
                },
            }
        }
        i = i + 1;
    }
    best
}

/// Whether a path belongs to the gateway itself.
pub fn is_reserved_path(path: &str) -> (r: bool)
    ensures
        r == reserved_path(path@),
{
    let p = chars_of(path);
    starts_with(p.as_slice(), chars_of("/xira").as_slice()) || eq_str(p.as_slice(), "/metrics") || eq_str(
        p.as_slice(),
        "/ws",
    ) || eq_str(p.as_slice(), "/dashboard")
}

/// The per-service address filter's verdict.
#[derive(Debug, Clone, Copy, PartialEq, Eq, Structural)]
pub enum IpFilterVerdict {
    Allowed,
    /// The address is on the blacklist.
    Blacklisted,
    /// A whitelist exists and the address is not on it.
    NotWhitelisted,
}

/// Membership of a text in a list of strings.
pub open spec fn listed(s: Seq<char>, l: Seq<String>) -> bool {
    exists|i: int| 0 <= i < l.len() && (#[trigger] l[i])@ == s
}

fn is_listed(s: &str, l: &[String]) -> (r: bool)
    ensures
        r == listed(s@, l@),
{
    let sc = chars_of(s);
    let mut i: usize = 0;
    while i < l.len()
        invariant
            i <= l@.len(),
            sc@ == s@,
            forall|j: int| 0 <= j < i ==> (#[trigger] l@[j])@ != s@,
        decreases l@.len() - i,
    {
        if eq_str(sc.as_slice(), l[i].as_str()) {
            return true;
        }
        i = i + 1;
    }
    false
}

/// The verdict for a peer address: the blacklist first, then the
/// whitelist when there is one.
pub open spec fn ip_verdict(ip: Seq<char>, whitelist: Seq<String>, blacklist: Seq<String>) -> IpFilterVerdict {
    if listed(ip, blacklist) {
        IpFilterVerdict::Blacklisted
    } else if whitelist.len() > 0 && !listed(ip, whitelist) {
        IpFilterVerdict::NotWhitelisted
    } else {
        IpFilterVerdict::Allowed
    }
}

/// Applies a service's address filter to the peer address.
pub fn ip_filter(peer_ip: &str, whitelist: &[String], blacklist: &[String]) -> (v: IpFilterVerdict)
    ensures
        v == ip_verdict(peer_ip@, whitelist@, blacklist@),
{
    if whitelist.len() == 0 && blacklist.len() == 0 {
        return IpFilterVerdict::Allowed;
    }
    if is_listed(peer_ip, blacklist) {
        return IpFilterVerdict::Blacklisted;
    }
    if whitelist.len() > 0 && !is_listed(peer_ip, whitelist) {
        return IpFilterVerdict::NotWhitelisted;
    }
    IpFilterVerdict::Allowed
}

/// The path sent upstream: the request path without the service prefix,
/// `/` when nothing is left or the prefix does not match.
pub open spec fn downstream_path_spec(path: Seq<char>, prefix: Seq<char>) -> Seq<char> {
    if has_prefix(path, prefix) && path.len() > prefix.len() {
        path.subrange(prefix.len() as int, path.len() as int)
    } else {
        "/"@
    }
}

/// The upstream URL: upstream, path, and `?query` when there is one.
pub open spec fn downstream_url_spec(upstream: Seq<char>, path: Seq<char>, prefix: Seq<char>, query: Seq<char>) -> Seq<char> {
    if query.len() == 0 {
        upstream + downstream_path_spec(path, prefix)
    } else {
        upstream + downstream_path_spec(path, prefix) + "?"@ + query
    }
}

/// Builds the upstream URL of a request.
pub fn downstream_url(upstream: &str, path: &str, prefix: &str, query: &str) -> (u: String)
    ensures
        u@ == downstream_url_spec(upstream@, path@, prefix@, query@),
{
    let p = chars_of(path);
    let pre = chars_of(prefix);
    let rest = if starts_with(p.as_slice(), pre.as_slice()) && p.len() > pre.len() {
        slice(p.as_slice(), pre.len(), p.len())
    } else {
        chars_of("/")
    };
    let a = concat(chars_of(upstream).as_slice(), rest.as_slice());
    let q = chars_of(query);
    if q.len() == 0 {
        string_of(a.as_slice())
    } else {
        let b = concat(a.as_slice(), chars_of("?").as_slice());
        let c = concat(b.as_slice(), q.as_slice());
        string_of(c.as_slice())
    }
}

/// The cache key of a request, when it may use the cache: a GET, with the
/// cache on, and cacheable by its headers.
pub fn cache_key_for(is_get: bool, cache_enabled: bool, cacheable: bool, path: &str, query: &str) -> (k: Option<String>)
    ensures
        (is_get && cache_enabled && cacheable) == k is Some,
        k matches Some(key) ==> key@ == (if query@.len() == 0 {
            "GET"@ + ":"@ + path@
        } else {
            "GET"@ + ":"@ + path@ + "?"@ + query@
        }),
{
    if is_get && cache_enabled && cacheable {
        Some(ResponseCache::make_key("GET", path, query))
    } else {
        None
    }
}

/// The method a request is proxied with; unknown methods go as GET.
pub fn proxy_method(method: &str) -> (m: HttpMethod)
    ensures
        m == match method_named(method@) {
            Some(x) => x,
            None => HttpMethod::Get,
        },
{
    match HttpMethod::parse(method) {
        HttpMethod::Other(_) => HttpMethod::Get,
        m => m,
    }
}

/// Whether to proxy through the retry policy: retries are configured and
/// the method is safe.
pub fn should_retry(max_retries: u32, method: &HttpMethod) -> (r: bool)
    ensures
        r == (max_retries > 0 && safe_method(*method)),
{
    max_retries > 0 && RetryPolicy::method_is_retryable(method)
}

/// Whether the outcome counts as a failure for the service's breaker.
pub fn counts_as_failure(status: u16) -> (r: bool)
    ensures
        r == (status >= 500),
{
    status >= 500
}

/// Whether a proxied answer is stored in the cache: a GET with a cache key,
/// a 2xx upstream answer, and headers that allow storing.
pub fn may_store(is_get: bool, has_key: bool, result: &ProxyResult, response_cacheable: bool) -> (r: bool)
    ensures
        r == (is_get && has_key && !result.is_error && 200 <= result.status < 300 && response_cacheable),
{
    is_get && has_key && !result.is_error && result.status >= 200 && result.status < 300 && response_cacheable
}

/// The request's id: the one it carries, or a fresh one.
pub fn request_id(given: Option<&str>) -> (id: String)
    ensures
        given matches Some(g) ==> id@ == g@,
{
    match given {
        Some(g) => string_of(chars_of(g).as_slice()),
        None => crate::ids::new_id(),
    }
}


/// A text without its leading slashes.
pub open spec fn strip_slashes(s: Seq<char>) -> Seq<char>
    decreases s.len(),
{
    if s.len() > 0 && s[0] == '/' {
        strip_slashes(s.drop_first())
    } else {
        s
    }
}

fn strip_leading_slashes(c: &[char]) -> (r: Vec<char>)
    ensures
        r@ == strip_slashes(c@),
{
    let mut k: usize = 0;
    assert(c@.subrange(0, c@.len() as int) =~= c@);
    while k < c.len() && c[k] == '/'
        invariant
            k <= c@.len(),
            strip_slashes(c@) == strip_slashes(c@.subrange(k as int, c@.len() as int)),
        decreases c@.len() - k,
    {
        assert(c@.subrange(k as int, c@.len() as int).drop_first() =~= c@.subrange(k + 1, c@.len() as int));
        k = k + 1;
    }
    slice(c, k, c.len())
}

/// Whether the query names the service at `i`: its prefix, without the
/// leading slashes, occurs in the query.
pub open spec fn names_service(query: Seq<char>, prefixes: Seq<String>, i: int) -> bool {
    contains_seq(query, strip_slashes(prefixes[i]@))
}

/// The service a GraphQL query goes to: the first whose prefix, without its
/// leading slashes, occurs in the query; when none does, the first service;
/// none when there are no services.
pub fn determine_target_service(query: &str, prefixes: &[String]) -> (r: Option<usize>)
    ensures
        r is None <==> prefixes@.len() == 0,
        r matches Some(i) ==> i < prefixes@.len(),
        r matches Some(i) ==> (names_service(query@, prefixes@, i as int) ==> forall|j: int|
            0 <= j < i ==> !names_service(query@, prefixes@, j)),
        r matches Some(i) ==> (!names_service(query@, prefixes@, i as int) ==> i == 0 && forall|j: int|
            0 <= j < prefixes@.len() ==> !names_service(query@, prefixes@, j)),
{
    let q = chars_of(query);
    let mut i: usize = 0;
    while i < prefixes.len()
        invariant
            i <= prefixes@.len(),
            q@ == query@,
            forall|j: int| 0 <= j < i ==> !names_service(query@, prefixes@, j),
        decreases prefixes@.len() - i,
    {
        let p = strip_leading_slashes(chars_of(prefixes[i].as_str()).as_slice());
        if contains(q.as_slice(), p.as_slice()) {
            return Some(i);
        }
        i = i + 1;
    }
    if prefixes.len() == 0 {
        None
    } else {
        Some(0)
    }
}

} // verus!
