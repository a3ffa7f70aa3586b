//! The request path of the gateway: breaker, balancing, caching, retries.
//!
//! This module holds the rules that decide whether a request may be served
//! from the shared response cache and whether a response may be stored.
pub mod circuit_breaker;
pub mod cache;
pub mod load_balancer;
pub mod retry;
pub mod proxy;
pub mod pipeline;
pub mod interceptors;
pub mod transform;
pub mod edge_cache;
pub mod canary;
pub mod connection_pool;
pub mod request_flow;
pub mod body_transform;

use vstd::prelude::*;
use crate::text::{chars_of, to_lower, lower_seq, contains_str, contains_seq, eq_str, trim, trim_seq};

verus! {

/// Whether a Cache-Control value, compared case-insensitively, forbids
/// storing: it names no-store, private or no-cache.
pub open spec fn disables_storage(v: Seq<char>) -> bool {
    let l = lower_seq(v);
    contains_seq(l, "no-store"@) || contains_seq(l, "private"@) || contains_seq(l, "no-cache"@)
}

/// Whether a Cache-Control value forbids storing the response.
pub fn cache_control_disables_storage(value: &str) -> (r: bool)
    ensures
        r == disables_storage(value@),
{
    let v = chars_of(value);
    let l = to_lower(v.as_slice());
    contains_str(l.as_slice(), "no-store") || contains_str(l.as_slice(), "private") || contains_str(
        l.as_slice(),
        "no-cache",
    )
}

/// Request headers whose presence makes the response per-client.
pub open spec fn private_request_header(lname: Seq<char>) -> bool {
    lname == "authorization"@ || lname == "cookie"@ || lname == "proxy-authorization"@ || lname == "x-api-key"@
        || lname == "upgrade"@ || lname == "range"@
}

/// Whether one request header keeps the request out of the cache; a value
/// that is not valid text is given as `None`.
pub open spec fn request_header_bypasses(name: Seq<char>, value: Option<Seq<char>>) -> bool {
    let l = lower_seq(name);
    private_request_header(l) || (l == "cache-control"@ && value is Some && disables_storage(value->0))
}

/// Whether a request may be answered from the shared cache: it carries no
/// credentials, cookies, upgrade or range, and no Cache-Control that forbids
/// storing.
pub fn request_is_cacheable(headers: &[(String, Option<String>)]) -> (r: bool)
    ensures
        r == forall|i: int|
            0 <= i < headers@.len() ==> !request_header_bypasses(
                #[trigger] headers@[i].0@,
                match headers@[i].1 {
                    Some(v) => Some(v@),
                    None => None,
                },
            ),
{
    let mut i: usize = 0;
    while i < headers.len()
        invariant
            i <= headers@.len(),
            forall|j: int|
                0 <= j < i ==> !request_header_bypasses(
                    #[trigger] headers@[j].0@,
                    match headers@[j].1 {
                        Some(v) => Some(v@),
                        None => None,
                    },
                ),
        decreases headers@.len() - i,
    {
        let name = chars_of(headers[i].0.as_str());
        let lname = to_lower(name.as_slice());
        let l = lname.as_slice();
        if eq_str(l, "authorization") || eq_str(l, "cookie") || eq_str(l, "proxy-authorization") || eq_str(
            l,
            "x-api-key",
        ) || eq_str(l, "upgrade") || eq_str(l, "range") {
            return false;
        }
        if eq_str(l, "cache-control") {
            match &headers[i].1 {
                Some(v) => {
                    if cache_control_disables_storage(v.as_str()) {
                        return false;
                    }
                },
                None => {},
            }
        }
        i = i + 1;
    }
    true
}

/// A request carrying credentials or per-client state is never served from
/// or stored in the shared cache: whatever the other headers, one header
/// whose lower-cased name is authorization, cookie, proxy-authorization,
/// x-api-key, upgrade or range makes the request non-cacheable.
pub proof fn law_credentials_bypass_cache(headers: Seq<(String, Option<String>)>, i: int)
    requires
        0 <= i < headers.len(),
        ({
            let l = lower_seq(headers[i].0@);
            l == "authorization"@ || l == "cookie"@ || l == "proxy-authorization"@ || l == "x-api-key"@ || l == "upgrade"@
                || l == "range"@
        }),
    ensures
        !(forall|j: int|
            0 <= j < headers.len() ==> !request_header_bypasses(
                #[trigger] headers[j].0@,
                match headers[j].1 {
                    Some(v) => Some(v@),
                    None => None,
                },
            )),
{
    assert(request_header_bypasses(
        headers[i].0@,
        match headers[i].1 {
            Some(v) => Some(v@),
            None => None,
        },
    ));
}

/// A Cache-Control request header naming no-store, private or no-cache (in
/// any case) keeps the request out of the shared cache.
pub proof fn law_no_store_request_bypasses_cache(headers: Seq<(String, Option<String>)>, i: int, v: String)
    requires
        0 <= i < headers.len(),
        lower_seq(headers[i].0@) == "cache-control"@,
        headers[i].1 == Some(v),
        contains_seq(lower_seq(v@), "no-store"@) || contains_seq(lower_seq(v@), "private"@) || contains_seq(
            lower_seq(v@),
            "no-cache"@,
        ),
    ensures
        !(forall|j: int|
            0 <= j < headers.len() ==> !request_header_bypasses(
                #[trigger] headers[j].0@,
                match headers[j].1 {
                    Some(v) => Some(v@),
                    None => None,
                },
            )),
{
    assert(request_header_bypasses(headers[i].0@, Some(v@)));
}

/// A request none of whose headers is a credential, cookie, upgrade, range
/// or Cache-Control header may be served from the shared cache.
pub proof fn law_plain_request_cacheable(headers: Seq<(String, Option<String>)>)
    requires
        forall|j: int|
            0 <= j < headers.len() ==> {
                let l = lower_seq(#[trigger] headers[j].0@);
                !(l == "authorization"@ || l == "cookie"@ || l == "proxy-authorization"@ || l == "x-api-key"@ || l
                    == "upgrade"@ || l == "range"@ || l == "cache-control"@)
            },
    ensures
        forall|j: int|
            0 <= j < headers.len() ==> !request_header_bypasses(
                #[trigger] headers[j].0@,
                match headers[j].1 {
                    Some(v) => Some(v@),
                    None => None,
                },
            ),
{
}

/// Whether one response header keeps the response out of the cache:
/// Set-Cookie, a Cache-Control that forbids storing, or `Vary: *`.
pub open spec fn response_header_blocks(name: Seq<char>, value: Seq<char>) -> bool {
    let l = lower_seq(name);
    l == "set-cookie"@ || (l == "cache-control"@ && disables_storage(value)) || (l == "vary"@ && trim_seq(value)
        == "*"@)
}

/// Whether a response may be stored in the shared cache.
pub fn response_is_cacheable(headers: &[(String, String)]) -> (r: bool)
    ensures
        r == forall|i: int|
            0 <= i < headers@.len() ==> !response_header_blocks(#[trigger] headers@[i].0@, headers@[i].1@),
{
    let mut i: usize = 0;
    while i < headers.len()
        invariant
            i <= headers@.len(),
            forall|j: int| 0 <= j < i ==> !response_header_blocks(#[trigger] headers@[j].0@, headers@[j].1@),
        decreases headers@.len() - i,
    {
        let name = chars_of(headers[i].0.as_str());
        let lname = to_lower(name.as_slice());
        let l = lname.as_slice();
        if eq_str(l, "set-cookie") {
            return false;
        }
        if eq_str(l, "cache-control") && cache_control_disables_storage(headers[i].1.as_str()) {
            return false;
        }
        if eq_str(l, "vary") {
            let v = chars_of(headers[i].1.as_str());
            let t = trim(v.as_slice());
            if eq_str(t.as_slice(), "*") {
                return false;
            }
        }
        i = i + 1;
    }
    true
}

} // verus!
