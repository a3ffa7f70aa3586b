//! The gateway's request path as one decision: reserved paths, routing by
//! prefix, the per-service address filter, the breaker gate, the method,
//! the cache, the balancer, the upstream URL and the forwarded headers;
//! then, once the upstream has answered, the breaker outcome and the cache
//! store. The caller performs the exchange with the upstream in between.
use vstd::prelude::*;
use crate::text::{chars_of, string_of, has_prefix};
use crate::config::ServiceConfig;
use crate::gateway::cache::{ResponseCache, cache_read, hview, put_effect, storable, vary_list};
use crate::gateway::circuit_breaker::{CircuitBreakerManager, CircuitState, gate, after_failure, after_success};
use crate::gateway::load_balancer::{LoadBalancer, LoadBalanceStrategy, least_index};
use crate::gateway::pipeline::{
    is_reserved_path, reserved_path, lookup_prefix, routes_to, ip_filter, ip_verdict, IpFilterVerdict,
    downstream_url, downstream_url_spec, cache_key_for, counts_as_failure, may_store,
};
use crate::gateway::proxy::{ProxyResult, forward_method, build_forward_headers, pairs, forward_headers_spec};
use crate::gateway::retry::{HttpMethod, method_named, RetryPolicy, request_retryable};
use crate::gateway::transform::{TransformRules, apply_additions, apply_removals};
use crate::gateway::{request_is_cacheable, request_header_bypasses, response_is_cacheable, response_header_blocks};

verus! {

/// The services and the shared state the request path works on.
pub struct GatewayCore {
    pub services: Vec<ServiceConfig>,
    pub breakers: CircuitBreakerManager,
    pub balancer: LoadBalancer,
    pub cache: ResponseCache,
}

/// What the request path reads of a request.
pub struct RequestFacts {
    pub method: String,
    pub path: String,
    pub query: String,
    /// The peer's address, when known.
    pub peer_ip: Option<String>,
    pub scheme: String,
    /// The request headers; `None` for a value that is not text.
    pub headers: Vec<(String, Option<String>)>,
}

/// A request answered by the gateway itself.
pub enum EarlyReply {
    /// A reserved path: 404.
    Reserved,
    /// No service prefix matches: 404.
    NoRoute,
    /// The address filter refused the peer: 403.
    IpRefused(IpFilterVerdict),
    /// The service's breaker refused: 503.
    Unavailable(CircuitState),
    /// A method the gateway does not forward (the 405 answer).
    BadMethod(ProxyResult),
    /// A cached response: status, headers, body.
    CacheHit(u16, Vec<(String, String)>, Vec<u8>),
}

/// What to send upstream, and what to remember for the answer.
pub struct ForwardPlan {
    /// The service's position in the configuration.
    pub service: usize,
    pub upstream: String,
    pub url: String,
    pub method: HttpMethod,
    pub headers: Vec<(String, String)>,
    pub cache_key: Option<String>,
    pub is_get: bool,
    /// Whether a failed attempt may be retried.
    pub retryable: bool,
}

/// The service prefixes, in configuration order.
pub open spec fn prefixes_of(s: Seq<ServiceConfig>) -> Seq<Seq<char>> {
    s.map_values(|c: ServiceConfig| c.prefix@)
}

/// The service a path goes to: among the prefixes it starts with, the
/// longest; the first listed among equally long ones.
pub open spec fn service_route(path: Seq<char>, ps: Seq<Seq<char>>, i: int) -> bool {
    &&& 0 <= i < ps.len()
    &&& has_prefix(path, ps[i])
    &&& forall|j: int| 0 <= j < ps.len() && has_prefix(path, #[trigger] ps[j]) ==> (ps[j].len() < ps[i].len() || (ps[j].len()
        == ps[i].len() && i <= j))
}

/// No prefix matches the path.
pub open spec fn no_route(path: Seq<char>, ps: Seq<Seq<char>>) -> bool {
    forall|j: int| 0 <= j < ps.len() ==> !has_prefix(path, #[trigger] ps[j])
}

/// The request's headers that carry text, in order.
pub open spec fn present_view(h: Seq<(String, Option<String>)>) -> Seq<(Seq<char>, Seq<char>)>
    decreases h.len(),
{
    if h.len() == 0 {
        Seq::empty()
    } else {
        let rest = present_view(h.drop_last());
        match h.last().1 {
            Some(v) => rest.push((h.last().0@, v@)),
            None => rest,
        }
    }
}

/// No header of the request keeps it away from the cache.
pub open spec fn cacheable_request(h: Seq<(String, Option<String>)>) -> bool {
    forall|i: int|
        0 <= i < h.len() ==> !request_header_bypasses(
            #[trigger] h[i].0@,
            match h[i].1 {
                Some(v) => Some(v@),
                None => None,
            },
        )
}

/// The cache key of a GET on a path and query.
pub open spec fn get_key(path: Seq<char>, query: Seq<char>) -> Seq<char> {
    if query.len() == 0 {
        "GET"@ + ":"@ + path
    } else {
        "GET"@ + ":"@ + path + "?"@ + query
    }
}

/// The upstreams a service balances over: its list, or its single upstream.
pub open spec fn candidates(s: ServiceConfig) -> Seq<Seq<char>> {
    if s.upstreams@.len() == 0 {
        seq![s.upstream@]
    } else {
        s.upstreams@.map_values(|u: String| u@)
    }
}

/// The text of an optional string.
pub open spec fn opt_text(o: Option<String>) -> Option<Seq<char>> {
    match o {
        Some(s) => Some(s@),
        None => None,
    }
}

fn copy_text(s: &String) -> (r: String)
    ensures
        r@ == s@,
{
    string_of(chars_of(s.as_str()).as_slice())
}

fn prefix_list(services: &Vec<ServiceConfig>) -> (v: Vec<String>)
    ensures
        v@.len() == services@.len(),
        forall|j: int| 0 <= j < v@.len() ==> (#[trigger] v@[j])@ == services@[j].prefix@,
{
    let mut v: Vec<String> = Vec::new();
    let mut i: usize = 0;
    while i < services.len()
        invariant
            i <= services@.len(),
            v@.len() == i,
            forall|j: int| 0 <= j < i ==> (#[trigger] v@[j])@ == services@[j].prefix@,
        decreases services@.len() - i,
    {
        v.push(copy_text(&services[i].prefix));
        i = i + 1;
    }
    v
}

fn upstream_list(s: &ServiceConfig) -> (v: Vec<String>)
    ensures
        v@.map_values(|u: String| u@) == candidates(*s),
{
    let mut v: Vec<String> = Vec::new();
    if s.upstreams.len() == 0 {
        v.push(copy_text(&s.upstream));
        assert(v@.map_values(|u: String| u@) =~= candidates(*s));
        return v;
    }
    let mut i: usize = 0;
    while i < s.upstreams.len()
        invariant
            i <= s.upstreams@.len(),
            v@.len() == i,
            forall|j: int| 0 <= j < i ==> (#[trigger] v@[j])@ == s.upstreams@[j]@,
        decreases s.upstreams@.len() - i,
    {
        v.push(copy_text(&s.upstreams[i]));
        i = i + 1;
    }
    assert(v@.map_values(|u: String| u@) =~= candidates(*s));
    v
}

fn present_headers(h: &Vec<(String, Option<String>)>) -> (r: Vec<(String, String)>)
    ensures
        hview(r@) == present_view(h@),
{
    let mut r: Vec<(String, String)> = Vec::new();
    let mut i: usize = 0;
    while i < h.len()
        invariant
            i <= h@.len(),
            hview(r@) == present_view(h@.subrange(0, i as int)),
        decreases h@.len() - i,
    {
        proof {
            assert(h@.subrange(0, i + 1).drop_last() =~= h@.subrange(0, i as int));
        }
        match &h[i].1 {
            Some(v) => {
                let ghost r0 = r@;
                r.push((copy_text(&h[i].0), copy_text(v)));
                assert(hview(r@) =~= hview(r0).push((h@[i as int].0@, v@)));
            },
            None => {},
        }
        i = i + 1;
    }
    assert(h@.subrange(0, h@.len() as int) =~= h@);
    r
}

proof fn lemma_least_in_range(m: Map<Seq<char>, usize>, ups: Seq<Seq<char>>)
    requires
        ups.len() >= 1,
    ensures
        0 <= least_index(m, ups) < ups.len(),
    decreases ups.len(),
{
    if ups.len() > 1 {
        lemma_least_in_range(m, ups.drop_last());
    }
}

/// Decides a request up to the upstream call, at the millisecond clock
/// reading `now_ms` (breakers and cache), with `entropy` for random
/// balancing. Each early reply comes only in its own case; a request that
/// passes every gate and finds nothing to serve in the cache is forwarded.
pub fn plan_request(core: &mut GatewayCore, req: &RequestFacts, now_ms: u64, entropy: usize) -> (r: Result<
    ForwardPlan,
    EarlyReply,
>)
    requires
        old(core).cache.wf(),
    ensures
        final(core).cache.wf(),
        final(core).services == old(core).services,
        final(core).cache.on() == old(core).cache.on(),
        reserved_path(req.path@) ==> r is Err && r->Err_0 is Reserved && *final(core) == *old(core),
        (r is Err && r->Err_0 is Reserved) == reserved_path(req.path@),
        !reserved_path(req.path@) && no_route(req.path@, prefixes_of(old(core).services@)) ==> r is Err && r->Err_0 is NoRoute
            && *final(core) == *old(core),
        (r is Err && r->Err_0 is NoRoute) == (!reserved_path(req.path@) && no_route(req.path@, prefixes_of(old(core).services@))),
        !reserved_path(req.path@) && !no_route(req.path@, prefixes_of(old(core).services@)) ==> exists|i: int|
            service_route(req.path@, prefixes_of(old(core).services@), i),
        forall|i: int|
            #![trigger service_route(req.path@, prefixes_of(old(core).services@), i)]
            !reserved_path(req.path@) && service_route(req.path@, prefixes_of(old(core).services@), i) ==> {
                let s = old(core).services@[i];
                let ip = match req.peer_ip {
                    Some(p) => p@,
                    None => Seq::<char>::empty(),
                };
                let v = ip_verdict(ip, s.ip_whitelist@, s.ip_blacklist@);
                let b = old(core).breakers;
                let (e2, g) = gate(b.entry_or_fresh(i as u128, now_ms), b.reset_secs(), b.half_max(), now_ms);
                &&& v != IpFilterVerdict::Allowed ==> r == Err::<ForwardPlan, EarlyReply>(EarlyReply::IpRefused(v))
                    && *final(core) == *old(core)
                &&& v == IpFilterVerdict::Allowed ==> final(core).breakers.breakers() == b.breakers().insert(i as u128, e2)
                &&& v == IpFilterVerdict::Allowed && g is Err ==> r == Err::<ForwardPlan, EarlyReply>(EarlyReply::Unavailable(
                    g->Err_0,
                )) && final(core).cache == old(core).cache && final(core).balancer == old(core).balancer
                &&& v == IpFilterVerdict::Allowed && g is Ok && method_named(req.method@) is None ==> (r matches Err(
                    EarlyReply::BadMethod(p),
                ) && p.status == 405) && final(core).cache == old(core).cache && final(core).balancer == old(core).balancer
                &&& v == IpFilterVerdict::Allowed && g is Ok && method_named(req.method@) is Some ==> (r is Ok || r->Err_0 is CacheHit)
                &&& r matches Err(EarlyReply::CacheHit(st, hs, bd)) ==> {
                    &&& v == IpFilterVerdict::Allowed && g is Ok
                    &&& method_named(req.method@) == Some(HttpMethod::Get)
                    &&& old(core).cache.on() && cacheable_request(req.headers@)
                    &&& cache_read(
                        old(core).cache.on(),
                        old(core).cache.ttl(),
                        old(core).cache.entries(),
                        final(core).cache.entries(),
                        get_key(req.path@, req.query@),
                        present_view(req.headers@),
                        now_ms,
                        Some((st, hs, bd)),
                    )
                    &&& final(core).balancer == old(core).balancer
                }
                &&& r matches Ok(plan) ==> {
                    &&& v == IpFilterVerdict::Allowed && g is Ok
                    &&& method_named(req.method@) == Some(plan.method)
                    &&& plan.service == i
                    &&& plan.is_get == (plan.method == HttpMethod::Get)
                    &&& candidates(s).contains(plan.upstream@)
                    &&& plan.url@ == downstream_url_spec(plan.upstream@, req.path@, s.prefix@, req.query@)
                    &&& (plan.cache_key is Some) == (plan.is_get && old(core).cache.on() && cacheable_request(req.headers@))
                    &&& plan.cache_key matches Some(k) ==> k@ == get_key(req.path@, req.query@) && cache_read(
                        old(core).cache.on(),
                        old(core).cache.ttl(),
                        old(core).cache.entries(),
                        final(core).cache.entries(),
                        k@,
                        present_view(req.headers@),
                        now_ms,
                        None,
                    )
                    &&& plan.cache_key is None ==> final(core).cache == old(core).cache
                    &&& plan.retryable == request_retryable(plan.method, plan.headers@.map_values(|p: (String, String)| p.0@))
                    &&& s.transform is None ==> pairs(plan.headers@) == forward_headers_spec(req.headers@, opt_text(req.peer_ip), req.scheme@)
                    &&& s.transform matches Some(t) ==> pairs(plan.headers@) == apply_additions(
                        apply_removals(forward_headers_spec(req.headers@, opt_text(req.peer_ip), req.scheme@), t.remove_request_headers@),
                        t.add_request_headers@,
                    )
                }
            },
{
    if is_reserved_path(req.path.as_str()) {
        return Err(EarlyReply::Reserved);
    }
    let prefixes = prefix_list(&core.services);
    proof {
        assert(prefixes@.map_values(|s: String| s@) =~= prefixes_of(core.services@));
    }
    let idx = match lookup_prefix(req.path.as_str(), prefixes.as_slice()) {
        None => {
            proof {
                assert forall|j: int| 0 <= j < prefixes_of(core.services@).len() implies !has_prefix(
                    req.path@,
                    #[trigger] prefixes_of(core.services@)[j],
                ) by {
                    assert(!has_prefix(req.path@, prefixes@[j]@));
                }
            }
            return Err(EarlyReply::NoRoute);
        },
        Some(i) => i,
    };
    proof {
        assert(routes_to(req.path@, prefixes@, idx as int));
        assert(service_route(req.path@, prefixes_of(old(core).services@), idx as int)) by {
            assert forall|j: int|
                0 <= j < prefixes_of(old(core).services@).len() && has_prefix(
                    req.path@,
                    #[trigger] prefixes_of(old(core).services@)[j],
                ) implies (prefixes_of(old(core).services@)[j].len() < prefixes_of(old(core).services@)[idx as int].len() || (
            prefixes_of(old(core).services@)[j].len() == prefixes_of(old(core).services@)[idx as int].len() && idx <= j)) by {
                assert(prefixes@[j]@ == prefixes_of(old(core).services@)[j]);
                assert(has_prefix(req.path@, prefixes@[j]@));
            }
        }
        assert forall|i: int| service_route(req.path@, prefixes_of(old(core).services@), i) implies i == idx by {
            let ps = prefixes_of(old(core).services@);
            assert(has_prefix(req.path@, ps[idx as int]));
            assert(has_prefix(req.path@, ps[i]));
        }
    }
    let empty = string_of(Vec::new().as_slice());
    let ip: &str = match &req.peer_ip {
        Some(p) => p.as_str(),
        None => empty.as_str(),
    };
    let verdict = ip_filter(ip, core.services[idx].ip_whitelist.as_slice(), core.services[idx].ip_blacklist.as_slice());
    match verdict {
        IpFilterVerdict::Allowed => {},
        _ => {
            return Err(EarlyReply::IpRefused(verdict));
        },
    }
    let id = idx as u128;
    match core.breakers.allow_request(id, now_ms) {
        Ok(()) => {},
        Err(s) => {
            return Err(EarlyReply::Unavailable(s));
        },
    }
    let method = match forward_method(req.method.as_str()) {
        Ok(m) => m,
        Err(p) => {
            return Err(EarlyReply::BadMethod(p));
        },
    };
    let is_get = match method {
        HttpMethod::Get => true,
        _ => false,
    };
    let cacheable = request_is_cacheable(req.headers.as_slice());
    let key = cache_key_for(is_get, core.cache.is_enabled(), cacheable, req.path.as_str(), req.query.as_str());
    match &key {
        Some(k) => {
            let present = present_headers(&req.headers);
            let hit = core.cache.get_at(k.as_str(), present.as_slice(), now_ms);
            match hit {
                Some((st, hs, bd)) => {
                    return Err(EarlyReply::CacheHit(st, hs, bd));
                },
                None => {},
            }
        },
        None => {},
    }
    let strategy = match &core.services[idx].load_balance {
        Some(name) => LoadBalanceStrategy::from_str(name.as_str()),
        None => LoadBalanceStrategy::RoundRobin,
    };
    let ups = upstream_list(&core.services[idx]);
    let upstream = core.balancer.select_upstream(id, ups.as_slice(), &strategy, entropy);
    proof {
        let c = candidates(old(core).services@[idx as int]);
        assert(c.len() >= 1);
        assert(ups@.len() == ups@.map_values(|u: String| u@).len());
        assert(ups@.len() >= 1);
        assert(ups@.map_values(|u: String| u@) == c);
        lemma_least_in_range(old(core).balancer.connections(), c);
        assert(c.contains(upstream@)) by {
            let n = c.len();
            if n == 1 {
                assert(c[0] == upstream@);
            } else if strategy == LoadBalanceStrategy::RoundRobin {
                let cnt = if old(core).balancer.counters().contains_key(id) { old(core).balancer.counters()[id] } else { 0usize };
                assert(c[(cnt as int) % (n as int)] == upstream@);
            } else if strategy == LoadBalanceStrategy::Random {
                assert(c[(entropy as int) % (n as int)] == upstream@);
            } else {
                assert(c[least_index(old(core).balancer.connections(), c)] == upstream@);
            }
        }
    }
    let url = downstream_url(upstream.as_str(), req.path.as_str(), core.services[idx].prefix.as_str(), req.query.as_str());
    let peer: Option<&str> = match &req.peer_ip {
        Some(p) => Some(p.as_str()),
        None => None,
    };
    let mut headers = build_forward_headers(req.headers.as_slice(), peer, req.scheme.as_str());
    match &core.services[idx].transform {
        Some(t) => {
            let rules = TransformRules::from_config(t);
            rules.apply_request_headers(&mut headers);
        },
        None => {},
    }
    let mut names: Vec<String> = Vec::new();
    let mut j: usize = 0;
    while j < headers.len()
        invariant
            j <= headers@.len(),
            names@.len() == j,
            forall|k: int| 0 <= k < j ==> (#[trigger] names@[k])@ == headers@[k].0@,
        decreases headers@.len() - j,
    {
        names.push(copy_text(&headers[j].0));
        j = j + 1;
    }
    assert(names@.map_values(|n: String| n@) =~= headers@.map_values(|p: (String, String)| p.0@));
    let retryable = RetryPolicy::is_request_retryable(&method, names.as_slice());
    Ok(ForwardPlan { service: idx, upstream, url, method, headers, cache_key: key, is_get, retryable })
}


/// No header of the answer keeps it out of the cache.
pub open spec fn cacheable_response(h: Seq<(String, String)>) -> bool {
    forall|i: int| 0 <= i < h.len() ==> !response_header_blocks(#[trigger] h[i].0@, h[i].1@)
}

/// Whether the answer to a planned request is stored: a GET with a cache
/// key, a 2xx upstream answer, and headers that allow storing.
pub open spec fn stores(plan: ForwardPlan, result: ProxyResult) -> bool {
    plan.is_get && plan.cache_key is Some && !result.is_error && 200 <= result.status < 300 && cacheable_response(result.headers@)
}

/// Records the upstream's answer at the millisecond clock reading `now_ms`:
/// a 5xx counts as a failure of the service's breaker and anything else as
/// a success; the answer is stored under the plan's key when `stores` says
/// so and the cache takes it.
pub fn finish_request(core: &mut GatewayCore, plan: &ForwardPlan, result: &ProxyResult, now_ms: u64)
    requires
        old(core).cache.wf(),
    ensures
        final(core).cache.wf(),
        final(core).services == old(core).services,
        final(core).balancer == old(core).balancer,
        final(core).cache.on() == old(core).cache.on(),
        final(core).cache.ttl() == old(core).cache.ttl(),
        final(core).cache.capacity() == old(core).cache.capacity(),
        ({
            let b = old(core).breakers;
            let id = plan.service as u128;
            &&& result.status >= 500 ==> final(core).breakers.breakers() == b.breakers().insert(
                id,
                after_failure(b.entry_or_fresh(id, now_ms), b.threshold(), now_ms),
            )
            &&& result.status < 500 && b.breakers().contains_key(id) ==> final(core).breakers.breakers()
                == b.breakers().insert(id, after_success(b.breakers()[id], b.half_max(), now_ms))
            &&& result.status < 500 && !b.breakers().contains_key(id) ==> final(core).breakers.breakers() == b.breakers()
        }),
        !(stores(*plan, *result) && old(core).cache.on() && storable(result.status, hview(result.headers@)))
            ==> final(core).cache.entries() == old(core).cache.entries(),
        stores(*plan, *result) && old(core).cache.on() && storable(result.status, hview(result.headers@)) ==> {
            let k = plan.cache_key->0@;
            let e = final(core).cache.entries()[k];
            &&& final(core).cache.entries().contains_key(k)
            &&& e.status == result.status && hview(e.headers@) == hview(result.headers@) && e.body@ == result.body@ && e.cached_at_ms == now_ms
            &&& e.vary_on@.map_values(|s: String| s@) == vary_list(hview(result.headers@))
            &&& put_effect(old(core).cache.entries(), final(core).cache.entries(), old(core).cache.capacity(), k, e)
        },
{
    let id = plan.service as u128;
    if counts_as_failure(result.status) {
        core.breakers.record_failure(id, now_ms);
    } else {
        core.breakers.record_success(id, now_ms);
    }
    let response_cacheable = response_is_cacheable(result.headers.as_slice());
    if may_store(plan.is_get, plan.cache_key.is_some(), result, response_cacheable) {
        match &plan.cache_key {
            Some(k) => {
                core.cache.put_at(copy_text(k), result.status, copy_pairs_of(&result.headers), copy_bytes(&result.body), now_ms);
            },
            None => {},
        }
    }
}

fn copy_pairs_of(v: &Vec<(String, String)>) -> (r: Vec<(String, String)>)
    ensures
        r@.len() == v@.len(),
        forall|i: int| 0 <= i < v@.len() ==> (#[trigger] r@[i]).0@ == v@[i].0@ && r@[i].1@ == v@[i].1@,
        hview(r@) == hview(v@),
{
    let mut r: Vec<(String, String)> = Vec::new();
    let mut i: usize = 0;
    while i < v.len()
        invariant
            i <= v@.len(),
            r@.len() == i,
            forall|j: int| 0 <= j < i ==> (#[trigger] r@[j]).0@ == v@[j].0@ && r@[j].1@ == v@[j].1@,
        decreases v@.len() - i,
    {
        r.push((copy_text(&v[i].0), copy_text(&v[i].1)));
        i = i + 1;
    }
    assert(hview(r@) =~= hview(v@));
    r
}

fn copy_bytes(v: &Vec<u8>) -> (r: Vec<u8>)
    ensures
        r@ == v@,
{
    let mut r: Vec<u8> = Vec::new();
    let mut i: usize = 0;
    while i < v.len()
        invariant
            i <= v@.len(),
            r@ == v@.subrange(0, i as int),
        decreases v@.len() - i,
    {
        r.push(v[i]);
        assert(r@ =~= v@.subrange(0, i + 1));
        i = i + 1;
    }
    assert(v@.subrange(0, v@.len() as int) =~= v@);
    r
}

} // verus!
