//! Forwarding a request to its upstream: which headers travel, which method
//! is used, and the answers given when the upstream cannot be reached. The
//! HTTP exchange itself is made by the caller.
use vstd::prelude::*;
use crate::text::{chars_of, string_of, to_lower, lower_seq, eq_str};
use crate::gateway::retry::{HttpMethod, method_named};

verus! {

/// Hop-by-hop headers (RFC 7230 §6.1) and proxy credentials, never forwarded.
pub open spec fn hop_by_hop(l: Seq<char>) -> bool {
    l == "host"@ || l == "connection"@ || l == "transfer-encoding"@ || l == "keep-alive"@ || l == "upgrade"@ || l
        == "te"@ || l == "proxy-authorization"@ || l == "proxy-connection"@
}

/// Whether a (lower-cased) header name is hop-by-hop.
pub fn is_hop_by_hop(l: &[char]) -> (r: bool)
    ensures
        r == hop_by_hop(l@),
{
    eq_str(l, "host") || eq_str(l, "connection") || eq_str(l, "transfer-encoding") || eq_str(l, "keep-alive")
        || eq_str(l, "upgrade") || eq_str(l, "te") || eq_str(l, "proxy-authorization") || eq_str(
        l,
        "proxy-connection",
    )
}

/// The outcome of forwarding a request.
pub struct ProxyResult {
    pub status: u16,
    pub headers: Vec<(String, String)>,
    pub body: Vec<u8>,
    pub is_error: bool,
}

/// The bytes of an ASCII text.
pub open spec fn ascii_bytes(s: Seq<char>) -> Seq<u8> {
    s.map_values(|c: char| (c as u32) as u8)
}

/// The JSON body `{"error":"MESSAGE"}`.
pub open spec fn error_json(msg: Seq<char>) -> Seq<u8> {
    ascii_bytes("{\"error\":\""@ + msg + "\"}"@)
}

/// Text that can stand in a JSON string as it is: ASCII, printable, with
/// no quote or backslash.
pub open spec fn plain_ascii(s: Seq<char>) -> bool {
    forall|i: int| 0 <= i < s.len() ==> ' ' <= #[trigger] s[i] <= '~' && s[i] != '"' && s[i] != '\\'
}

fn push_ascii(out: &mut Vec<u8>, s: &str)
    requires
        forall|i: int| 0 <= i < s@.len() ==> (#[trigger] s@[i] as u32) < 128,
    ensures
        final(out)@ == old(out)@ + ascii_bytes(s@),
{
    let cs = chars_of(s);
    let mut i: usize = 0;
    while i < cs.len()
        invariant
            i <= cs@.len(),
            cs@ == s@,
            forall|j: int| 0 <= j < s@.len() ==> (#[trigger] s@[j] as u32) < 128,
            out@ == old(out)@ + ascii_bytes(s@.subrange(0, i as int)),
        decreases cs@.len() - i,
    {
        let c = cs[i];
        assert(s@[i as int] == c);
        assert((c as u32) < 128);
        out.push((c as u32) as u8);
        assert(ascii_bytes(s@.subrange(0, i + 1)) =~= ascii_bytes(s@.subrange(0, i as int)).push((c as u32) as u8));
        assert(out@ =~= old(out)@ + ascii_bytes(s@.subrange(0, i + 1)));
        i = i + 1;
    }
    assert(s@.subrange(0, s@.len() as int) =~= s@);
}

/// The JSON error body for a message.
pub fn error_body(msg: &str) -> (b: Vec<u8>)
    requires
        plain_ascii(msg@),
    ensures
        b@ == error_json(msg@),
{
    proof {
        reveal_strlit("{\"error\":\"");
        reveal_strlit("\"}");
    }
    let mut out: Vec<u8> = Vec::new();
    push_ascii(&mut out, "{\"error\":\"");
    assert forall|i: int| 0 <= i < msg@.len() implies (#[trigger] msg@[i] as u32) < 128 by {
        assert(' ' <= msg@[i] <= '~');
    }
    push_ascii(&mut out, msg);
    push_ascii(&mut out, "\"}");
    assert(out@ =~= error_json(msg@));
    out
}

impl ProxyResult {
    /// A JSON error answer with this status and message.
    pub fn error(status: u16, msg: &str) -> (r: Self)
        requires
            plain_ascii(msg@),
        ensures
            r.status == status,
            r.is_error,
            r.headers@.len() == 1,
            r.headers@[0].0@ == "content-type"@,
            r.headers@[0].1@ == "application/json"@,
            r.body@ == error_json(msg@),
    {
        let mut headers: Vec<(String, String)> = Vec::new();
        headers.push((string_of(chars_of("content-type").as_slice()), string_of(chars_of("application/json").as_slice())));
        ProxyResult { status, headers, body: error_body(msg), is_error: true }
    }

    /// An upstream answer.
    pub fn upstream(status: u16, headers: Vec<(String, String)>, body: Vec<u8>) -> (r: Self)
        ensures
            r.status == status,
            r.headers == headers,
            r.body == body,
            !r.is_error,
    {
        ProxyResult { status, headers, body, is_error: false }
    }
}

/// The method a request is forwarded with; a method other than the seven
/// standard ones is answered with 405 and `{"error":"Method not supported"}`.
pub fn forward_method(method: &str) -> (r: Result<HttpMethod, ProxyResult>)
    ensures
        method_named(method@) is Some ==> r == Ok::<HttpMethod, ProxyResult>(method_named(method@)->0),
        method_named(method@) is None ==> (r matches Err(p) && p.status == 405 && p.is_error && p.body@ == error_json(
            "Method not supported"@,
        ) && p.headers@.len() == 1 && p.headers@[0].0@ == "content-type"@ && p.headers@[0].1@ == "application/json"@),
{
    let m = HttpMethod::parse(method);
    match m {
        HttpMethod::Other(_) => {
            proof {
                reveal_strlit("Method not supported");
            }
            Err(ProxyResult::error(405, "Method not supported"))
        },
        _ => Ok(m),
    }
}

/// The answer when the upstream could not be reached.
pub fn unreachable_result() -> (r: ProxyResult)
    ensures
        r.status == 502,
        r.is_error,
        r.headers@.len() == 1,
        r.headers@[0].0@ == "content-type"@,
        r.headers@[0].1@ == "application/json"@,
        r.body@ == error_json("Service unavailable"@),
{
    proof {
        reveal_strlit("Service unavailable");
    }
    ProxyResult::error(502, "Service unavailable")
}

/// The answer when the upstream's body could not be read.
pub fn unreadable_result() -> (r: ProxyResult)
    ensures
        r.status == 502,
        r.is_error,
        r.headers@.len() == 1,
        r.headers@[0].0@ == "content-type"@,
        r.headers@[0].1@ == "application/json"@,
        r.body@ == error_json("Failed to read upstream response"@),
{
    proof {
        reveal_strlit("Failed to read upstream response");
    }
    ProxyResult::error(502, "Failed to read upstream response")
}

/// Header pairs whose value is text, as texts.
pub open spec fn text_headers(h: Seq<(String, Option<String>)>) -> Seq<(Seq<char>, Seq<char>)>
    decreases h.len(),
{
    if h.len() == 0 {
        Seq::empty()
    } else {
        let rest = text_headers(h.drop_last());
        let (k, v) = h.last();
        match v {
            Some(t) => if hop_by_hop(lower_seq(k@)) {
                rest
            } else {
                rest.push((k@, t@))
            },
            None => rest,
        }
    }
}

/// The upstream's response headers that are passed back: those that are
/// not hop-by-hop and whose value is text (given as `None` otherwise), in
/// order.
pub fn response_headers_kept(headers: &[(String, Option<String>)]) -> (r: Vec<(String, String)>)
    ensures
        r@.map_values(|p: (String, String)| (p.0@, p.1@)) == text_headers(headers@),
{
    let mut r: Vec<(String, String)> = Vec::new();
    let mut i: usize = 0;
    while i < headers.len()
        invariant
            i <= headers@.len(),
            r@.map_values(|p: (String, String)| (p.0@, p.1@)) == text_headers(headers@.subrange(0, i as int)),
        decreases headers@.len() - i,
    {
        proof {
            assert(headers@.subrange(0, i + 1).drop_last() =~= headers@.subrange(0, i as int));
        }
        let name = chars_of(headers[i].0.as_str());
        let l = to_lower(name.as_slice());
        match &headers[i].1 {
            Some(v) => {
                if !is_hop_by_hop(l.as_slice()) {
                    let pair = (string_of(name.as_slice()), string_of(chars_of(v.as_str()).as_slice()));
                    r.push(pair);
                    assert(r@.map_values(|p: (String, String)| (p.0@, p.1@)) =~= text_headers(
                        headers@.subrange(0, i as int),
                    ).push((headers@[i as int].0@, v@)));
                }
            },
            None => {},
        }
        i = i + 1;
    }
    assert(headers@.subrange(0, headers@.len() as int) =~= headers@);
    r
}

/// Sets `name` to `value` in a header map kept as pairs with distinct
/// names: an existing name keeps its place and takes the new value, a new
/// name goes last.
pub open spec fn map_set(m: Seq<(Seq<char>, Seq<char>)>, name: Seq<char>, value: Seq<char>) -> Seq<(Seq<char>, Seq<char>)> {
    if exists|i: int| 0 <= i < m.len() && #[trigger] m[i].0 == name {
        let i = choose|i: int| 0 <= i < m.len() && #[trigger] m[i].0 == name;
        m.update(i, (name, value))
    } else {
        m.push((name, value))
    }
}

/// Pairs of a header map.
pub open spec fn pairs(v: Seq<(String, String)>) -> Seq<(Seq<char>, Seq<char>)> {
    v.map_values(|p: (String, String)| (p.0@, p.1@))
}

/// Names are distinct.
pub open spec fn distinct_names(m: Seq<(Seq<char>, Seq<char>)>) -> bool {
    forall|i: int, j: int| 0 <= i < m.len() && 0 <= j < m.len() && i != j ==> #[trigger] m[i].0 != #[trigger] m[j].0
}

/// Sets a header in a header map (names compared exactly).
pub fn header_set(m: &mut Vec<(String, String)>, name: Vec<char>, value: Vec<char>)
    requires
        distinct_names(pairs(old(m)@)),
    ensures
        distinct_names(pairs(final(m)@)),
        pairs(final(m)@) == map_set(pairs(old(m)@), name@, value@),
{
    let ghost pm = pairs(m@);
    let mut i: usize = 0;
    while i < m.len()
        invariant
            i <= m@.len(),
            pm == pairs(m@),
            pm == pairs(old(m)@),
            distinct_names(pm),
            forall|j: int| 0 <= j < i ==> #[trigger] pm[j].0 != name@,
        decreases m@.len() - i,
    {
        let k = chars_of(m[i].0.as_str());
        if crate::text::eq(k.as_slice(), name.as_slice()) {
            proof {
                assert(pm[i as int].0 == name@);
                let c = choose|c: int| 0 <= c < pm.len() && #[trigger] pm[c].0 == name@;
                assert(c == i as int) by {
                    if c != i as int {
                        assert(pm[c].0 != pm[i as int].0);
                    }
                }
            }
            let mut tmp: Vec<(String, String)> = Vec::new();
            std::mem::swap(&mut tmp, m);
            tmp.set(i, (string_of(name.as_slice()), string_of(value.as_slice())));
            *m = tmp;
            assert(pairs(m@) =~= pm.update(i as int, (name@, value@)));
            assert(map_set(pm, name@, value@) == pm.update(i as int, (name@, value@)));
            assert(distinct_names(pairs(m@))) by {
                let q = pairs(m@);
                assert forall|a: int, b: int| 0 <= a < q.len() && 0 <= b < q.len() && a != b implies #[trigger] q[a].0 != #[trigger] q[b].0 by {
                    assert(pm[a].0 != pm[b].0);
                }
            }
            return;
        }
        i = i + 1;
    }
    m.push((string_of(name.as_slice()), string_of(value.as_slice())));
    assert(pairs(m@) =~= pm.push((name@, value@)));
}

/// The request headers that are forwarded, as a header map: text values of
/// headers that are not hop-by-hop, a repeated name keeping the last value.
pub open spec fn forward_fold(h: Seq<(String, Option<String>)>) -> Seq<(Seq<char>, Seq<char>)>
    decreases h.len(),
{
    if h.len() == 0 {
        Seq::empty()
    } else {
        let acc = forward_fold(h.drop_last());
        let (k, v) = h.last();
        match v {
            Some(t) => if hop_by_hop(lower_seq(k@)) {
                acc
            } else {
                map_set(acc, lower_seq(k@), t@)
            },
            None => acc,
        }
    }
}

/// The value of the first request header with this (lower-case) name, when
/// that value is text.
pub open spec fn first_text(h: Seq<(String, Option<String>)>, name: Seq<char>) -> Option<Seq<char>>
    decreases h.len(),
{
    if h.len() == 0 {
        None
    } else if lower_seq(h[0].0@) == name {
        match h[0].1 {
            Some(t) => Some(t@),
            None => None,
        }
    } else {
        first_text(h.drop_first(), name)
    }
}

/// The headers sent upstream: the forwarded request headers, then
/// `x-forwarded-for` with the peer address when known, `x-forwarded-proto`
/// (`https` for https connections, else `http`), and `x-forwarded-host`
/// with the request's Host when it is text.
pub open spec fn forward_headers_spec(h: Seq<(String, Option<String>)>, peer_ip: Option<Seq<char>>, scheme: Seq<char>) -> Seq<(Seq<char>, Seq<char>)> {
    let a = forward_fold(h);
    let b = match peer_ip {
        Some(ip) => map_set(a, "x-forwarded-for"@, ip),
        None => a,
    };
    let c = map_set(b, "x-forwarded-proto"@, if scheme == "https"@ { "https"@ } else { "http"@ });
    match first_text(h, "host"@) {
        Some(host) => map_set(c, "x-forwarded-host"@, host),
        None => c,
    }
}

proof fn lemma_map_set(m: Seq<(Seq<char>, Seq<char>)>, n: Seq<char>, v: Seq<char>)
    requires
        distinct_names(m),
    ensures
        distinct_names(map_set(m, n, v)),
        exists|i: int| 0 <= i < map_set(m, n, v).len() && map_set(m, n, v)[i] == (n, v),
        forall|i: int| 0 <= i < map_set(m, n, v).len() && #[trigger] map_set(m, n, v)[i].0 == n ==> map_set(m, n, v)[i].1 == v,
        forall|i: int| 0 <= i < map_set(m, n, v).len() && #[trigger] map_set(m, n, v)[i].0 != n ==> exists|j: int|
            0 <= j < m.len() && m[j] == map_set(m, n, v)[i],
        forall|j: int| 0 <= j < m.len() && #[trigger] m[j].0 != n ==> exists|i: int|
            0 <= i < map_set(m, n, v).len() && map_set(m, n, v)[i] == m[j],
{
    let r = map_set(m, n, v);
    if exists|i: int| 0 <= i < m.len() && #[trigger] m[i].0 == n {
        let k = choose|i: int| 0 <= i < m.len() && #[trigger] m[i].0 == n;
        assert(r == m.update(k, (n, v)));
        assert(r[k] == (n, v));
        assert forall|a: int, b: int| 0 <= a < r.len() && 0 <= b < r.len() && a != b implies #[trigger] r[a].0 != #[trigger] r[b].0 by {
            if a != k && b != k {
                assert(m[a].0 != m[b].0);
            } else if a == k {
                assert(m[k].0 != m[b].0);
            } else {
                assert(m[a].0 != m[k].0);
            }
        }
        assert forall|i: int| 0 <= i < r.len() && #[trigger] r[i].0 == n implies r[i].1 == v by {
            if i != k {
                assert(m[i].0 != m[k].0);
            }
        }
        assert forall|i: int| 0 <= i < r.len() && #[trigger] r[i].0 != n implies exists|j: int| 0 <= j < m.len() && m[j] == r[i] by {
            assert(m[i] == r[i]);
        }
        assert forall|j: int| 0 <= j < m.len() && #[trigger] m[j].0 != n implies exists|i: int| 0 <= i < r.len() && r[i] == m[j] by {
            assert(r[j] == m[j]);
        }
    } else {
        assert(r == m.push((n, v)));
        let k = m.len() as int;
        assert(r[k] == (n, v));
        assert forall|a: int, b: int| 0 <= a < r.len() && 0 <= b < r.len() && a != b implies #[trigger] r[a].0 != #[trigger] r[b].0 by {
            if a != k && b != k {
                assert(m[a].0 != m[b].0);
            } else if a == k {
                assert(r[b] == m[b]);
            } else {
                assert(r[a] == m[a]);
            }
        }
        assert forall|i: int| 0 <= i < r.len() && #[trigger] r[i].0 == n implies r[i].1 == v by {
            if i != k {
                assert(r[i] == m[i]);
            }
        }
        assert forall|i: int| 0 <= i < r.len() && #[trigger] r[i].0 != n implies exists|j: int| 0 <= j < m.len() && m[j] == r[i] by {
            assert(m[i] == r[i]);
        }
        assert forall|j: int| 0 <= j < m.len() && #[trigger] m[j].0 != n implies exists|i: int| 0 <= i < r.len() && r[i] == m[j] by {
            assert(r[j] == m[j]);
        }
    }
}

proof fn lemma_forward_fold_distinct(h: Seq<(String, Option<String>)>)
    ensures
        distinct_names(forward_fold(h)),
    decreases h.len(),
{
    if h.len() > 0 {
        lemma_forward_fold_distinct(h.drop_last());
        let acc = forward_fold(h.drop_last());
        let (k, v) = h.last();
        if let Some(t) = v {
            if !hop_by_hop(lower_seq(k@)) {
                lemma_map_set(acc, lower_seq(k@), t@);
            }
        }
    }
}

/// The headers sent upstream carry exactly one `x-forwarded-proto`, and it
/// is the scheme of the client's connection when that is `http` or
/// `https`; any other scheme is reported as `http`.
pub proof fn law_forwarded_proto_is_scheme(h: Seq<(String, Option<String>)>, peer_ip: Option<Seq<char>>, scheme: Seq<char>)
    ensures
        distinct_names(forward_headers_spec(h, peer_ip, scheme)),
        exists|i: int|
            0 <= i < forward_headers_spec(h, peer_ip, scheme).len() && forward_headers_spec(h, peer_ip, scheme)[i].0
                == "x-forwarded-proto"@,
        forall|i: int|
            0 <= i < forward_headers_spec(h, peer_ip, scheme).len() && (#[trigger] forward_headers_spec(h, peer_ip, scheme)[i]).0
                == "x-forwarded-proto"@ ==> {
                let v = forward_headers_spec(h, peer_ip, scheme)[i].1;
                &&& (scheme == "https"@ || scheme == "http"@) ==> v == scheme
                &&& !(scheme == "https"@ || scheme == "http"@) ==> v == "http"@
            },
{
    reveal_strlit("x-forwarded-proto");
    reveal_strlit("x-forwarded-host");
    reveal_strlit("x-forwarded-for");
    reveal_strlit("https");
    reveal_strlit("http");
    let a = forward_fold(h);
    lemma_forward_fold_distinct(h);
    let b = match peer_ip {
        Some(ip) => map_set(a, "x-forwarded-for"@, ip),
        None => a,
    };
    if let Some(ip) = peer_ip {
        lemma_map_set(a, "x-forwarded-for"@, ip);
    }
    let pv = if scheme == "https"@ { "https"@ } else { "http"@ };
    let c = map_set(b, "x-forwarded-proto"@, pv);
    lemma_map_set(b, "x-forwarded-proto"@, pv);
    assert(pv == (if scheme == "https"@ || scheme == "http"@ { scheme } else { "http"@ }));
    let r = forward_headers_spec(h, peer_ip, scheme);
    match first_text(h, "host"@) {
        Some(host) => {
            lemma_map_set(c, "x-forwarded-host"@, host);
            assert(r == map_set(c, "x-forwarded-host"@, host));
            assert("x-forwarded-proto"@ != "x-forwarded-host"@) by {
                assert("x-forwarded-proto"@[12] != "x-forwarded-host"@[12]);
            }
            let k = choose|i: int| 0 <= i < c.len() && c[i] == ("x-forwarded-proto"@, pv);
            assert(c[k].0 != "x-forwarded-host"@);
            assert forall|i: int| 0 <= i < r.len() && (#[trigger] r[i]).0 == "x-forwarded-proto"@ implies r[i].1 == pv by {
                let j = choose|j: int| 0 <= j < c.len() && c[j] == r[i];
                assert(c[j].0 == "x-forwarded-proto"@);
            }
        },
        None => {
            assert(r == c);
        },
    }
}

/// `m` has exactly the value `val` under `name`, and has it.
pub open spec fn holds_only(m: Seq<(Seq<char>, Seq<char>)>, name: Seq<char>, val: Seq<char>) -> bool {
    &&& exists|i: int| 0 <= i < m.len() && m[i] == (name, val)
    &&& forall|i: int| 0 <= i < m.len() && (#[trigger] m[i]).0 == name ==> m[i].1 == val
}

proof fn lemma_set_keeps_other(m: Seq<(Seq<char>, Seq<char>)>, n: Seq<char>, v: Seq<char>, name: Seq<char>, val: Seq<char>)
    requires
        distinct_names(m),
        name != n,
        holds_only(m, name, val),
    ensures
        distinct_names(map_set(m, n, v)),
        holds_only(map_set(m, n, v), name, val),
{
    assert(distinct_names(map_set(m, n, v))) by {
        lemma_map_set(m, n, v);
    }
    let r = map_set(m, n, v);
    let k = choose|i: int| 0 <= i < m.len() && m[i] == (name, val);
    if exists|i: int| 0 <= i < m.len() && #[trigger] m[i].0 == n {
        let kn = choose|i: int| 0 <= i < m.len() && #[trigger] m[i].0 == n;
        assert(r == m.update(kn, (n, v)));
        assert(r[k] == m[k]);
        assert forall|i: int| 0 <= i < r.len() && (#[trigger] r[i]).0 == name implies r[i].1 == val by {
            assert(i != kn);
            assert(r[i] == m[i]);
        }
    } else {
        assert(r == m.push((n, v)));
        assert(r[k] == m[k]);
        assert forall|i: int| 0 <= i < r.len() && (#[trigger] r[i]).0 == name implies r[i].1 == val by {
            if i < m.len() {
                assert(r[i] == m[i]);
            }
        }
    }
}

proof fn lemma_set_holds(m: Seq<(Seq<char>, Seq<char>)>, n: Seq<char>, v: Seq<char>)
    requires
        distinct_names(m),
    ensures
        distinct_names(map_set(m, n, v)),
        holds_only(map_set(m, n, v), n, v),
{
    lemma_map_set(m, n, v);
}

/// The headers sent upstream carry the peer's address, when known, as their
/// only `x-forwarded-for`.
pub proof fn law_forwarded_for_is_peer(h: Seq<(String, Option<String>)>, ip: Seq<char>, scheme: Seq<char>)
    ensures
        holds_only(forward_headers_spec(h, Some(ip), scheme), "x-forwarded-for"@, ip),
{
    reveal_strlit("x-forwarded-proto");
    reveal_strlit("x-forwarded-host");
    reveal_strlit("x-forwarded-for");
    lemma_forward_fold_distinct(h);
    let b = map_set(forward_fold(h), "x-forwarded-for"@, ip);
    lemma_set_holds(forward_fold(h), "x-forwarded-for"@, ip);
    let pv = if scheme == "https"@ { "https"@ } else { "http"@ };
    assert("x-forwarded-for"@[12] != "x-forwarded-proto"@[12]);
    assert("x-forwarded-for"@[12] != "x-forwarded-host"@[12]);
    lemma_set_keeps_other(b, "x-forwarded-proto"@, pv, "x-forwarded-for"@, ip);
    let c = map_set(b, "x-forwarded-proto"@, pv);
    if let Some(host) = first_text(h, "host"@) {
        lemma_set_keeps_other(c, "x-forwarded-host"@, host, "x-forwarded-for"@, ip);
    }
}

/// The headers sent upstream carry the request's Host, when it is text, as
/// their only `x-forwarded-host`.
pub proof fn law_forwarded_host_is_host(h: Seq<(String, Option<String>)>, peer_ip: Option<Seq<char>>, scheme: Seq<char>)
    ensures
        first_text(h, "host"@) matches Some(host) ==> holds_only(forward_headers_spec(h, peer_ip, scheme), "x-forwarded-host"@, host),
{
    lemma_forward_fold_distinct(h);
    let a = forward_fold(h);
    let b = match peer_ip {
        Some(ip) => map_set(a, "x-forwarded-for"@, ip),
        None => a,
    };
    if let Some(ip) = peer_ip {
        lemma_map_set(a, "x-forwarded-for"@, ip);
    }
    let pv = if scheme == "https"@ { "https"@ } else { "http"@ };
    lemma_map_set(b, "x-forwarded-proto"@, pv);
    let c = map_set(b, "x-forwarded-proto"@, pv);
    if let Some(host) = first_text(h, "host"@) {
        lemma_set_holds(c, "x-forwarded-host"@, host);
    }
}

proof fn lemma_first_text_skip(h: Seq<(String, Option<String>)>, name: Seq<char>, i: int)
    requires
        0 <= i <= h.len(),
        forall|j: int| 0 <= j < i ==> lower_seq(#[trigger] h[j].0@) != name,
    ensures
        first_text(h, name) == first_text(h.subrange(i, h.len() as int), name),
    decreases i,
{
    if i == 0 {
        assert(h.subrange(0, h.len() as int) =~= h);
    } else {
        lemma_first_text_skip(h, name, i - 1);
        let t = h.subrange(i - 1, h.len() as int);
        assert(t[0] == h[i - 1]);
        assert(t.drop_first() =~= h.subrange(i, h.len() as int));
    }
}

/// Finds the first request header with a (lower-case) name and its text.
pub(crate) fn find_first_text(h: &[(String, Option<String>)], name: &str) -> (r: Option<Vec<char>>)
    ensures
        match r {
            Some(v) => first_text(h@, name@) == Some(v@),
            None => first_text(h@, name@) is None,
        },
{
    let mut i: usize = 0;
    while i < h.len()
        invariant
            i <= h@.len(),
            forall|j: int| 0 <= j < i ==> lower_seq(#[trigger] h@[j].0@) != name@,
        decreases h@.len() - i,
    {
        let k = chars_of(h[i].0.as_str());
        let l = to_lower(k.as_slice());
        if eq_str(l.as_slice(), name) {
            proof {
                lemma_first_text_skip(h@, name@, i as int);
                assert(h@.subrange(i as int, h@.len() as int)[0] == h@[i as int]);
            }
            return match &h[i].1 {
                Some(t) => Some(chars_of(t.as_str())),
                None => None,
            };
        }
        i = i + 1;
    }
    proof {
        lemma_first_text_skip(h@, name@, i as int);
    }
    None
}

/// Builds the headers sent upstream (`forward_headers_spec`).
pub fn build_forward_headers(req_headers: &[(String, Option<String>)], peer_ip: Option<&str>, scheme: &str) -> (r: Vec<
    (String, String),
>)
    ensures
        pairs(r@) == forward_headers_spec(
            req_headers@,
            match peer_ip {
                Some(p) => Some(p@),
                None => None,
            },
            scheme@,
        ),
        distinct_names(pairs(r@)),
{
    let mut m: Vec<(String, String)> = Vec::new();
    let mut i: usize = 0;
    proof {
        assert(pairs(m@) =~= Seq::<(Seq<char>, Seq<char>)>::empty());
    }
    while i < req_headers.len()
        invariant
            i <= req_headers@.len(),
            distinct_names(pairs(m@)),
            pairs(m@) == forward_fold(req_headers@.subrange(0, i as int)),
        decreases req_headers@.len() - i,
    {
        proof {
            assert(req_headers@.subrange(0, i + 1).drop_last() =~= req_headers@.subrange(0, i as int));
        }
        let k = chars_of(req_headers[i].0.as_str());
        let l = to_lower(k.as_slice());
        match &req_headers[i].1 {
            Some(v) => {
                if !is_hop_by_hop(l.as_slice()) {
                    header_set(&mut m, l, chars_of(v.as_str()));
                }
            },
            None => {},
        }
        i = i + 1;
    }
    proof {
        assert(req_headers@.subrange(0, req_headers@.len() as int) =~= req_headers@);
    }
    match peer_ip {
        Some(ip) => header_set(&mut m, chars_of("x-forwarded-for"), chars_of(ip)),
        None => {},
    }
    let https = eq_str(chars_of(scheme).as_slice(), "https");
    let proto = if https { chars_of("https") } else { chars_of("http") };
    header_set(&mut m, chars_of("x-forwarded-proto"), proto);
    match find_first_text(req_headers, "host") {
        Some(host) => header_set(&mut m, chars_of("x-forwarded-host"), host),
        None => {},
    }
    m
}

} // verus!
