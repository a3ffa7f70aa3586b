//! Shared response cache: successful responses kept under a request key in a
//! bounded least-recently-used cache (`lru::LruCache`), served while younger
//! than the time-to-live, and only to requests that agree on the headers
//! the response varies on.
use vstd::prelude::*;
use lru::LruCache;
use crate::text::{chars_of, string_of, concat, to_lower, lower_seq, trim, trim_seq, split_seq, split_on, eq_str,
    eq_ignore_case, contains_str, contains_seq};

verus! {

/// A stored response.
pub struct CachedResponse {
    pub status: u16,
    pub headers: Vec<(String, String)>,
    pub body: Vec<u8>,
    /// Clock reading, in milliseconds, when it was stored.
    pub cached_at_ms: u64,
    /// Lower-cased names of the headers the response varies on.
    pub vary_on: Vec<String>,
}

#[verifier::external_type_specification]
#[verifier::external_body]
#[verifier::reject_recursive_types(K)]
#[verifier::reject_recursive_types(V)]
#[verifier::reject_recursive_types(S)]
pub struct ExLruCache<K, V, S>(LruCache<K, V, S>);

#[verifier::external_type_specification]
#[verifier::external_body]
pub struct ExLruHasher(lru::DefaultHasher);

/// The entries of a response LRU cache, by key.
pub uninterp spec fn lru_entries(c: LruCache<String, CachedResponse>) -> Map<Seq<char>, CachedResponse>;

/// The capacity a response LRU cache was made with.
pub uninterp spec fn lru_capacity(c: LruCache<String, CachedResponse>) -> nat;

/// A cache with nothing in it.
pub open spec fn no_entries() -> Map<Seq<char>, CachedResponse> {
    Map::empty()
}

/// What putting `v` under `k` does to the entries of an LRU cache of
/// capacity `cap`: a present key gets the new value; a new key is added, and
/// when the cache is full some other entry leaves first.
pub open spec fn put_effect(
    before: Map<Seq<char>, CachedResponse>,
    after: Map<Seq<char>, CachedResponse>,
    cap: nat,
    k: Seq<char>,
    v: CachedResponse,
) -> bool {
    &&& before.contains_key(k) ==> after == before.insert(k, v)
    &&& !before.contains_key(k) && before.len() < cap ==> after == before.insert(k, v)
    &&& !before.contains_key(k) && before.len() == cap ==> exists|x: Seq<char>|
        #[trigger] before.contains_key(x) && x != k && after == before.remove(x).insert(k, v)
}

/// `LruCache::new` with capacity `cap` (at least one): an empty cache.
#[verifier::external_body]
fn lru_new(cap: usize) -> (c: LruCache<String, CachedResponse>)
    requires
        cap >= 1,
    ensures
        lru_entries(c) == no_entries(),
        lru_capacity(c) == cap,
{
    LruCache::new(std::num::NonZeroUsize::new(cap).unwrap())
}

/// `LruCache::get`, for its effect only: it marks the key as most recently
/// used; the entries stay as they are.
#[verifier::external_body]
fn lru_touch(c: &mut LruCache<String, CachedResponse>, k: &str)
    ensures
        lru_entries(*final(c)) == lru_entries(*old(c)),
        lru_capacity(*final(c)) == lru_capacity(*old(c)),
{
    let _ = c.get(k);
}

/// `LruCache::peek`: the value under the key, if any, without marking it.
#[verifier::external_body]
fn lru_peek<'a>(c: &'a LruCache<String, CachedResponse>, k: &str) -> (r: Option<&'a CachedResponse>)
    ensures
        match r {
            Some(v) => lru_entries(*c).contains_key(k@) && *v == lru_entries(*c)[k@],
            None => !lru_entries(*c).contains_key(k@),
        },
{
    c.peek(k)
}

/// `LruCache::pop`: takes the entry under the key out.
#[verifier::external_body]
fn lru_pop(c: &mut LruCache<String, CachedResponse>, k: &str) -> (r: Option<CachedResponse>)
    ensures
        lru_entries(*final(c)) == lru_entries(*old(c)).remove(k@),
        lru_capacity(*final(c)) == lru_capacity(*old(c)),
        match r {
            Some(v) => lru_entries(*old(c)).contains_key(k@) && v == lru_entries(*old(c))[k@],
            None => !lru_entries(*old(c)).contains_key(k@),
        },
{
    c.pop(k)
}

/// `LruCache::put`: a present key gets the new value; a new key is added,
/// and when the cache is full the least recently used entry, some other key,
/// leaves first.
#[verifier::external_body]
fn lru_put(c: &mut LruCache<String, CachedResponse>, k: String, v: CachedResponse)
    ensures
        lru_capacity(*final(c)) == lru_capacity(*old(c)),
        put_effect(lru_entries(*old(c)), lru_entries(*final(c)), lru_capacity(*old(c)), k@, v),
{
    let _ = c.put(k, v);
}

/// `LruCache::clear`: no entries are left.
#[verifier::external_body]
fn lru_clear(c: &mut LruCache<String, CachedResponse>)
    ensures
        lru_entries(*final(c)) == no_entries(),
        lru_capacity(*final(c)) == lru_capacity(*old(c)),
{
    c.clear()
}

/// `LruCache::len`: the number of entries.
#[verifier::external_body]
fn lru_len(c: &LruCache<String, CachedResponse>) -> (n: usize)
    ensures
        n == lru_entries(*c).len(),
{
    c.len()
}

/// `LruCache::cap`: the capacity.
#[verifier::external_body]
fn lru_cap(c: &LruCache<String, CachedResponse>) -> (n: usize)
    ensures
        n == lru_capacity(*c),
{
    c.cap().get()
}

/// Header pairs as texts.
pub open spec fn hview(h: Seq<(String, String)>) -> Seq<(Seq<char>, Seq<char>)> {
    h.map_values(|p: (String, String)| (p.0@, p.1@))
}

/// Adds one comma-separated token of a Vary value: trimmed and lower-cased,
/// skipped when empty or already listed.
pub open spec fn vary_step(acc: Seq<Seq<char>>, tok: Seq<char>) -> Seq<Seq<char>> {
    let t = lower_seq(trim_seq(tok));
    if t.len() > 0 && !acc.contains(t) {
        acc.push(t)
    } else {
        acc
    }
}

/// Adds the tokens in order.
pub open spec fn add_tokens(acc: Seq<Seq<char>>, toks: Seq<Seq<char>>) -> Seq<Seq<char>>
    decreases toks.len(),
{
    if toks.len() == 0 {
        acc
    } else {
        vary_step(add_tokens(acc, toks.drop_last()), toks.last())
    }
}

/// The header names listed by the Vary headers of a response, in order of
/// first mention.
pub open spec fn vary_list(h: Seq<(Seq<char>, Seq<char>)>) -> Seq<Seq<char>>
    decreases h.len(),
{
    if h.len() == 0 {
        Seq::<Seq<char>>::empty()
    } else {
        let acc = vary_list(h.drop_last());
        if lower_seq(h.last().0) == "vary"@ {
            add_tokens(acc, split_seq(h.last().1, ','))
        } else {
            acc
        }
    }
}

/// The value of the first header named `name` (ignoring ASCII case), or the
/// empty text.
pub open spec fn header_value(h: Seq<(Seq<char>, Seq<char>)>, name: Seq<char>) -> Seq<char>
    decreases h.len(),
{
    if h.len() == 0 {
        Seq::<char>::empty()
    } else if lower_seq(h[0].0) == lower_seq(name) {
        h[0].1
    } else {
        header_value(h.drop_first(), name)
    }
}

/// Texts joined with `|`.
pub open spec fn join_bar(parts: Seq<Seq<char>>) -> Seq<char>
    decreases parts.len(),
{
    if parts.len() == 0 {
        Seq::<char>::empty()
    } else if parts.len() == 1 {
        parts[0]
    } else {
        join_bar(parts.drop_last()) + "|"@ + parts.last()
    }
}

/// The fingerprint of the varying headers: `name=value` for each name,
/// joined with `|`.
pub open spec fn vary_etag(names: Seq<Seq<char>>, h: Seq<(Seq<char>, Seq<char>)>) -> Seq<char> {
    join_bar(names.map_values(|n: Seq<char>| n + "="@ + header_value(h, n)))
}

/// Whether a response header forbids storing the response in this cache:
/// Set-Cookie, or a Cache-Control naming no-store or private.
pub open spec fn put_blocks(name: Seq<char>, value: Seq<char>) -> bool {
    let l = lower_seq(name);
    l == "set-cookie"@ || (l == "cache-control"@ && (contains_seq(lower_seq(value), "no-store"@) || contains_seq(
        lower_seq(value),
        "private"@,
    )))
}

/// Whether a response may be stored: 2xx, not varying on everything, on
/// cookies or on credentials, and no header that forbids it.
pub open spec fn storable(status: u16, h: Seq<(Seq<char>, Seq<char>)>) -> bool {
    let v = vary_list(h);
    &&& 200 <= status < 300
    &&& !v.contains("*"@)
    &&& !v.contains("cookie"@)
    &&& !v.contains("authorization"@)
    &&& forall|i: int| 0 <= i < h.len() ==> !put_blocks(#[trigger] h[i].0, h[i].1)
}

/// Whether an entry is older than the time-to-live at clock reading `now_ms`
/// (a clock that went back counts as no time elapsed).
pub open spec fn expired(e: CachedResponse, ttl_secs: u64, now_ms: u64) -> bool {
    let elapsed: int = if now_ms >= e.cached_at_ms {
        now_ms - e.cached_at_ms
    } else {
        0
    };
    elapsed >= ttl_secs * 1000
}

/// What reading `key` at `now_ms` does: nothing when the cache is off or
/// has no entry; an expired entry is dropped and not served; a fresh entry
/// is served when the request matches the headers it varies on.
pub open spec fn cache_read(
    on: bool,
    ttl: u64,
    es: Map<Seq<char>, CachedResponse>,
    after: Map<Seq<char>, CachedResponse>,
    key: Seq<char>,
    req: Seq<(Seq<char>, Seq<char>)>,
    now_ms: u64,
    r: Option<(u16, Vec<(String, String)>, Vec<u8>)>,
) -> bool {
    let present = on && es.contains_key(key);
    let e = es[key];
    let gone = present && expired(e, ttl, now_ms);
    &&& gone ==> after == es.remove(key)
    &&& !gone ==> after == es
    &&& match r {
        Some(t) => present && !gone && vary_match(e, req) && t.0 == e.status && t.1@ == e.headers@ && t.2@ == e.body@,
        None => !present || gone || !vary_match(e, req),
    }
}

/// Whether a request with these headers may be served the entry: the entry
/// varies on nothing, or both fingerprints of its varying headers agree.
pub open spec fn vary_match(e: CachedResponse, req: Seq<(Seq<char>, Seq<char>)>) -> bool {
    let names = e.vary_on@.map_values(|s: String| s@);
    names.len() == 0 || vary_etag(names, req) == vary_etag(names, hview(e.headers@))
}

proof fn lemma_add_tokens_step(acc: Seq<Seq<char>>, toks: Seq<Seq<char>>, j: int)
    requires
        0 <= j < toks.len(),
    ensures
        add_tokens(acc, toks.subrange(0, j + 1)) == vary_step(add_tokens(acc, toks.subrange(0, j)), toks[j]),
{
    assert(toks.subrange(0, j + 1).drop_last() =~= toks.subrange(0, j));
}

/// The names a response varies on, as `vary_list` gives them.
pub fn extract_vary(headers: &[(String, String)]) -> (out: Vec<String>)
    ensures
        out@.map_values(|s: String| s@) == vary_list(hview(headers@)),
{
    let mut out: Vec<String> = Vec::new();
    let mut i: usize = 0;
    while i < headers.len()
        invariant
            i <= headers@.len(),
            out@.map_values(|s: String| s@) == vary_list(hview(headers@.subrange(0, i as int))),
        decreases headers@.len() - i,
    {
        let ghost hv = hview(headers@.subrange(0, i + 1));
        proof {
            assert(hv.drop_last() =~= hview(headers@.subrange(0, i as int)));
            assert(hv.last() == (headers@[i as int].0@, headers@[i as int].1@));
        }
        let name = chars_of(headers[i].0.as_str());
        if eq_ignore_case(name.as_slice(), chars_of("vary").as_slice()) {
            proof {
                assert(lower_seq("vary"@) =~= "vary"@) by {
                    reveal_strlit("vary");
                }
            }
            let value = chars_of(headers[i].1.as_str());
            let toks = split_on(value.as_slice(), ',');
            let ghost acc0 = out@.map_values(|s: String| s@);
            let ghost tv = toks@.map_values(|v: Vec<char>| v@);
            let mut j: usize = 0;
            while j < toks.len()
                invariant
                    j <= toks@.len(),
                    tv == toks@.map_values(|v: Vec<char>| v@),
                    out@.map_values(|s: String| s@) == add_tokens(acc0, tv.subrange(0, j as int)),
                decreases toks@.len() - j,
            {
                proof {
                    lemma_add_tokens_step(acc0, tv, j as int);
                }
                let t = trim(toks[j].as_slice());
                let lt = to_lower(t.as_slice());
                let ghost acc = out@.map_values(|s: String| s@);
                if lt.len() > 0 {
                    let mut seen = false;
                    let mut q: usize = 0;
                    while q < out.len()
                        invariant
                            q <= out@.len(),
                            acc == out@.map_values(|s: String| s@),
                            seen == exists|p: int| 0 <= p < q && acc[p] == lt@,
                        decreases out@.len() - q,
                    {
                        let oq = chars_of(out[q].as_str());
                        assert(acc[q as int] == oq@);
                        if crate::text::eq(oq.as_slice(), lt.as_slice()) {
                            seen = true;
                        }
                        proof {
                            if !seen {
                                assert forall|p: int| 0 <= p < q + 1 implies acc[p] != lt@ by {
                                    if p < q {
                                        assert(!(0 <= p < q && acc[p] == lt@));
                                    }
                                }
                            }
                        }
                        q = q + 1;
                    }
                    if !seen {
                        out.push(string_of(lt.as_slice()));
                        assert(out@.map_values(|s: String| s@) =~= acc.push(lt@));
                    }
                }
                j = j + 1;
            }
            proof {
                assert(tv.subrange(0, tv.len() as int) =~= tv);
            }
        } else {
            proof {
                assert(lower_seq(name@) != "vary"@) by {
                    reveal_strlit("vary");
                    assert(lower_seq("vary"@) =~= "vary"@);
                }
            }
        }
        i = i + 1;
    }
    assert(headers@.subrange(0, headers@.len() as int) =~= headers@);
    out
}

proof fn lemma_header_value_skip(h: Seq<(Seq<char>, Seq<char>)>, name: Seq<char>, i: int)
    requires
        0 <= i <= h.len(),
        forall|j: int| 0 <= j < i ==> lower_seq(#[trigger] h[j].0) != lower_seq(name),
    ensures
        header_value(h, name) == header_value(h.subrange(i, h.len() as int), name),
    decreases i,
{
    if i == 0 {
        assert(h.subrange(0, h.len() as int) =~= h);
    } else {
        lemma_header_value_skip(h, name, i - 1);
        let t = h.subrange(i - 1, h.len() as int);
        assert(t[0] == h[i - 1]);
        assert(t.drop_first() =~= h.subrange(i, h.len() as int));
    }
}

/// The value of the first header named `name`, ignoring ASCII case, or the
/// empty text.
pub fn find_header_value(headers: &[(String, String)], name: &[char]) -> (v: Vec<char>)
    ensures
        v@ == header_value(hview(headers@), name@),
{
    let ghost hv = hview(headers@);
    let mut i: usize = 0;
    while i < headers.len()
        invariant
            i <= headers@.len(),
            hv == hview(headers@),
            forall|j: int| 0 <= j < i ==> lower_seq(#[trigger] hv[j].0) != lower_seq(name@),
        decreases headers@.len() - i,
    {
        let k = chars_of(headers[i].0.as_str());
        if eq_ignore_case(k.as_slice(), name) {
            proof {
                lemma_header_value_skip(hv, name@, i as int);
                assert(hv.subrange(i as int, hv.len() as int)[0] == hv[i as int]);
            }
            return chars_of(headers[i].1.as_str());
        }
        i = i + 1;
    }
    proof {
        lemma_header_value_skip(hv, name@, i as int);
    }
    Vec::new()
}

/// The fingerprint of the varying headers of a request or response.
pub fn compute_vary_etag(vary_on: &[String], headers: &[(String, String)]) -> (r: String)
    ensures
        r@ == vary_etag(vary_on@.map_values(|s: String| s@), hview(headers@)),
{
    let ghost names = vary_on@.map_values(|s: String| s@);
    let ghost parts = names.map_values(|n: Seq<char>| n + "="@ + header_value(hview(headers@), n));
    let mut out: Vec<char> = Vec::new();
    let mut i: usize = 0;
    while i < vary_on.len()
        invariant
            i <= vary_on@.len(),
            names == vary_on@.map_values(|s: String| s@),
            parts == names.map_values(|n: Seq<char>| n + "="@ + header_value(hview(headers@), n)),
            out@ == join_bar(parts.subrange(0, i as int)),
        decreases vary_on@.len() - i,
    {
        let name = chars_of(vary_on[i].as_str());
        let value = find_header_value(headers, name.as_slice());
        let with_eq = concat(name.as_slice(), chars_of("=").as_slice());
        let part = concat(with_eq.as_slice(), value.as_slice());
        proof {
            assert(part@ == parts[i as int]);
            assert(parts.subrange(0, i + 1).drop_last() =~= parts.subrange(0, i as int));
        }
        if i == 0 {
            out = part;
            assert(parts.subrange(0, 1)[0] == parts[0]);
        } else {
            let bar = concat(out.as_slice(), chars_of("|").as_slice());
            out = concat(bar.as_slice(), part.as_slice());
        }
        i = i + 1;
    }
    assert(parts.subrange(0, parts.len() as int) =~= parts);
    string_of(out.as_slice())
}


/// Cache statistics.
pub struct CacheStats {
    pub enabled: bool,
    pub entries: usize,
    pub capacity: usize,
    pub ttl_secs: u64,
}

/// The shared response cache.
pub struct ResponseCache {
    cache: LruCache<String, CachedResponse>,
    ttl_secs: u64,
    enabled: bool,
}

/// A copy of header pairs.
fn copy_headers(h: &Vec<(String, String)>) -> (r: Vec<(String, String)>)
    ensures
        r@ == h@,
{
    let mut r: Vec<(String, String)> = Vec::new();
    let mut i: usize = 0;
    while i < h.len()
        invariant
            i <= h@.len(),
            r@ == h@.subrange(0, i as int),
        decreases h@.len() - i,
    {
        let p = (h[i].0.clone(), h[i].1.clone());
        r.push(p);
        assert(r@ =~= h@.subrange(0, i + 1));
        i = i + 1;
    }
    assert(h@.subrange(0, h@.len() as int) =~= h@);
    r
}

/// A copy of a body.
fn copy_body(b: &Vec<u8>) -> (r: Vec<u8>)
    ensures
        r@ == b@,
{
    let mut r: Vec<u8> = Vec::new();
    let mut i: usize = 0;
    while i < b.len()
        invariant
            i <= b@.len(),
            r@ == b@.subrange(0, i as int),
        decreases b@.len() - i,
    {
        r.push(b[i]);
        assert(r@ =~= b@.subrange(0, i + 1));
        i = i + 1;
    }
    assert(b@.subrange(0, b@.len() as int) =~= b@);
    r
}

/// Tests `expired`.
fn is_expired(e: &CachedResponse, ttl_secs: u64, now_ms: u64) -> (r: bool)
    ensures
        r == expired(*e, ttl_secs, now_ms),
{
    let elapsed: u64 = if now_ms >= e.cached_at_ms {
        now_ms - e.cached_at_ms
    } else {
        0
    };
    elapsed / 1000 >= ttl_secs
}

impl ResponseCache {
    /// The stored responses, by key.
    pub closed spec fn entries(&self) -> Map<Seq<char>, CachedResponse> {
        lru_entries(self.cache)
    }

    /// How many responses the cache holds at most.
    pub closed spec fn capacity(&self) -> nat {
        lru_capacity(self.cache)
    }

    /// The time-to-live, in seconds.
    pub closed spec fn ttl(&self) -> u64 {
        self.ttl_secs
    }

    /// Whether the cache serves and stores.
    pub closed spec fn on(&self) -> bool {
        self.enabled
    }

    /// A cache that is empty or partly full.
    pub closed spec fn wf(&self) -> bool {
        &&& lru_entries(self.cache).dom().finite()
        &&& lru_entries(self.cache).len() <= lru_capacity(self.cache)
        &&& lru_capacity(self.cache) >= 1
    }

    /// An empty cache holding at most `max_entries` responses (at least one).
    pub fn new(max_entries: usize, ttl_secs: u64, enabled: bool) -> (c: Self)
        ensures
            c.wf(),
            c.entries() == no_entries(),
            c.capacity() == if max_entries < 1 { 1 } else { max_entries as nat },
            c.ttl() == ttl_secs,
            c.on() == enabled,
    {
        let cap = if max_entries < 1 {
            1
        } else {
            max_entries
        };
        let c = ResponseCache { cache: lru_new(cap), ttl_secs, enabled };
        assert(lru_entries(c.cache).dom() =~= Set::<Seq<char>>::empty());
        c
    }

    /// Turns the cache on or off; turning it off drops every entry.
    pub fn set_enabled(&mut self, enabled: bool)
        requires
            old(self).wf(),
        ensures
            final(self).wf(),
            final(self).on() == enabled,
            final(self).ttl() == old(self).ttl(),
            final(self).capacity() == old(self).capacity(),
            enabled ==> final(self).entries() == old(self).entries(),
            !enabled ==> final(self).entries() == no_entries(),
    {
        self.enabled = enabled;
        if !enabled {
            self.clear();
        }
    }

    /// Sets the time-to-live.
    pub fn set_ttl_secs(&mut self, ttl_secs: u64)
        ensures
            final(self).ttl() == ttl_secs,
            final(self).on() == old(self).on(),
            final(self).entries() == old(self).entries(),
            final(self).capacity() == old(self).capacity(),
            old(self).wf() ==> final(self).wf(),
    {
        self.ttl_secs = ttl_secs;
    }

    pub fn is_enabled(&self) -> (r: bool)
        ensures
            r == self.on(),
    {
        self.enabled
    }

    pub fn ttl_secs(&self) -> (r: u64)
        ensures
            r == self.ttl(),
    {
        self.ttl_secs
    }

    /// Drops every entry.
    pub fn clear(&mut self)
        requires
            old(self).wf(),
        ensures
            final(self).wf(),
            final(self).entries() == no_entries(),
            final(self).on() == old(self).on(),
            final(self).ttl() == old(self).ttl(),
            final(self).capacity() == old(self).capacity(),
    {
        lru_clear(&mut self.cache);
        assert(lru_entries(self.cache).dom() =~= Set::<Seq<char>>::empty());
    }

    /// The response stored under `key`, at clock reading `now_ms`: nothing when
    /// the cache is off or has no entry; an entry past its time-to-live is
    /// dropped and not served; an entry whose varying headers the request
    /// does not match is kept but not served.
    pub fn get_at(&mut self, key: &str, request_headers: &[(String, String)], now_ms: u64) -> (r: Option<
        (u16, Vec<(String, String)>, Vec<u8>),
    >)
        requires
            old(self).wf(),
        ensures
            final(self).wf(),
            final(self).on() == old(self).on(),
            final(self).ttl() == old(self).ttl(),
            final(self).capacity() == old(self).capacity(),
            ({
                let es = old(self).entries();
                let present = old(self).on() && es.contains_key(key@);
                let e = es[key@];
                let gone = present && expired(e, old(self).ttl(), now_ms);
                &&& gone ==> final(self).entries() == es.remove(key@)
                &&& !gone ==> final(self).entries() == es
                &&& match r {
                    Some(t) => present && !gone && vary_match(e, hview(request_headers@)) && t.0 == e.status && t.1@
                        == e.headers@ && t.2@ == e.body@,
                    None => !present || gone || !vary_match(e, hview(request_headers@)),
                }
            }),
    {
        if !self.enabled {
            return None;
        }
        let ttl = self.ttl_secs;
        lru_touch(&mut self.cache, key);
        let mut stale = false;
        let mut found: Option<(u16, Vec<(String, String)>, Vec<u8>)> = None;
        match lru_peek(&self.cache, key) {
            None => {},
            Some(entry) => {
                if is_expired(entry, ttl, now_ms) {
                    stale = true;
                } else {
                    let mut hit = true;
                    if entry.vary_on.len() > 0 {
                        let request_etag = compute_vary_etag(entry.vary_on.as_slice(), request_headers);
                        let cached_etag = compute_vary_etag(entry.vary_on.as_slice(), entry.headers.as_slice());
                        let a = chars_of(request_etag.as_str());
                        let b = chars_of(cached_etag.as_str());
                        if !crate::text::eq(a.as_slice(), b.as_slice()) {
                            hit = false;
                        }
                    }
                    if hit {
                        found = Some((entry.status, copy_headers(&entry.headers), copy_body(&entry.body)));
                    }
                }
            },
        }
        if stale {
            let _ = lru_pop(&mut self.cache, key);
            proof {
                let es = lru_entries(self.cache);
                assert(es.dom().finite());
                assert(es.len() <= lru_capacity(self.cache));
            }
        }
        found
    }

    /// Stores a response under `key` at clock reading `now_ms`, when the cache
    /// is on and the response is `storable`; the names it varies on are kept
    /// with it. A full cache makes room by dropping its least recently used
    /// entry.
    pub fn put_at(&mut self, key: String, status: u16, headers: Vec<(String, String)>, body: Vec<u8>, now_ms: u64)
        requires
            old(self).wf(),
        ensures
            final(self).wf(),
            final(self).on() == old(self).on(),
            final(self).ttl() == old(self).ttl(),
            final(self).capacity() == old(self).capacity(),
            !(old(self).on() && storable(status, hview(headers@))) ==> final(self).entries() == old(self).entries(),
            old(self).on() && storable(status, hview(headers@)) ==> {
                let es = old(self).entries();
                let e = final(self).entries()[key@];
                &&& final(self).entries().contains_key(key@)
                &&& e.status == status && e.headers == headers && e.body == body && e.cached_at_ms == now_ms
                &&& e.vary_on@.map_values(|s: String| s@) == vary_list(hview(headers@))
                &&& put_effect(es, final(self).entries(), old(self).capacity(), key@, e)
            },
    {
        if !self.enabled {
            return;
        }
        if status < 200 || status >= 300 {
            return;
        }
        let vary_on = extract_vary(headers.as_slice());
        let ghost vl = vary_list(hview(headers@));
        let mut i: usize = 0;
        while i < vary_on.len()
            invariant
                i <= vary_on@.len(),
                vary_on@.map_values(|s: String| s@) == vl,
                vl == vary_list(hview(headers@)),
                *self == *old(self),
                old(self).wf(),
                forall|j: int| 0 <= j < i ==> vl[j] != "*"@ && vl[j] != "cookie"@ && vl[j] != "authorization"@,
            decreases vary_on@.len() - i,
        {
            let v = chars_of(vary_on[i].as_str());
            assert(v@ == vl[i as int]);
            if eq_str(v.as_slice(), "*") || eq_str(v.as_slice(), "cookie") || eq_str(v.as_slice(), "authorization") {
                proof {
                    assert(vl.contains(vl[i as int]));
                }
                return;
            }
            i = i + 1;
        }
        proof {
            assert(!vl.contains("*"@) && !vl.contains("cookie"@) && !vl.contains("authorization"@)) by {
                if vl.contains("*"@) {
                    let j = choose|j: int| 0 <= j < vl.len() && vl[j] == "*"@;
                }
                if vl.contains("cookie"@) {
                    let j = choose|j: int| 0 <= j < vl.len() && vl[j] == "cookie"@;
                }
                if vl.contains("authorization"@) {
                    let j = choose|j: int| 0 <= j < vl.len() && vl[j] == "authorization"@;
                }
            }
        }
        let ghost hv = hview(headers@);
        let mut k: usize = 0;
        while k < headers.len()
            invariant
                k <= headers@.len(),
                hv == hview(headers@),
                *self == *old(self),
                old(self).wf(),
                forall|j: int| 0 <= j < k ==> !put_blocks(#[trigger] hv[j].0, hv[j].1),
            decreases headers@.len() - k,
        {
            let name = chars_of(headers[k].0.as_str());
            let lname = to_lower(name.as_slice());
            assert(hv[k as int] == (headers@[k as int].0@, headers@[k as int].1@));
            if eq_str(lname.as_slice(), "cache-control") {
                let value = chars_of(headers[k].1.as_str());
                let lower = to_lower(value.as_slice());
                if contains_str(lower.as_slice(), "no-store") || contains_str(lower.as_slice(), "private") {
                    assert(put_blocks(hv[k as int].0, hv[k as int].1));
                    return;
                }
            }
            if eq_str(lname.as_slice(), "set-cookie") {
                assert(put_blocks(hv[k as int].0, hv[k as int].1));
                return;
            }
            k = k + 1;
        }
        let entry = CachedResponse { status, headers, body, cached_at_ms: now_ms, vary_on };
        let ghost e = entry;
        let ghost before = lru_entries(self.cache);
        lru_put(&mut self.cache, key, entry);
        proof {
            let after = lru_entries(self.cache);
            if !before.contains_key(key@) && before.len() == lru_capacity(self.cache) {
                let x = choose|x: Seq<char>| #[trigger] before.contains_key(x) && x != key@ && after == before.remove(x).insert(key@, e);
                assert(before.remove(x).len() == before.len() - 1);
            }
            assert(after.dom().finite());
        }
    }

    /// `get_at` at the current clock reading.
    pub fn get(&mut self, key: &str, request_headers: &[(String, String)]) -> (r: Option<
        (u16, Vec<(String, String)>, Vec<u8>),
    >)
        requires
            old(self).wf(),
        ensures
            final(self).wf(),
            final(self).on() == old(self).on(),
            final(self).ttl() == old(self).ttl(),
            !(old(self).on() && old(self).entries().contains_key(key@)) ==> r is None && final(self).entries()
                == old(self).entries(),
            r matches Some(t) ==> {
                let e = old(self).entries()[key@];
                &&& old(self).on() && old(self).entries().contains_key(key@)
                &&& vary_match(e, hview(request_headers@))
                &&& t.0 == e.status && t.1@ == e.headers@ && t.2@ == e.body@
                &&& final(self).entries() == old(self).entries()
            },
            exists|now_ms: u64| #[trigger] cache_read(
                old(self).on(),
                old(self).ttl(),
                old(self).entries(),
                final(self).entries(),
                key@,
                hview(request_headers@),
                now_ms,
                r,
            ),
    {
        let now = crate::clock::now_millis();
        let r = self.get_at(key, request_headers, now);
        assert(cache_read(old(self).on(), old(self).ttl(), old(self).entries(), self.entries(), key@, hview(request_headers@), now, r));
        r
    }

    /// `put_at` at the current clock reading.
    pub fn put(&mut self, key: String, status: u16, headers: Vec<(String, String)>, body: Vec<u8>)
        requires
            old(self).wf(),
        ensures
            final(self).wf(),
            final(self).on() == old(self).on(),
            final(self).ttl() == old(self).ttl(),
            !(old(self).on() && storable(status, hview(headers@))) ==> final(self).entries() == old(self).entries(),
            final(self).capacity() == old(self).capacity(),
            old(self).on() && storable(status, hview(headers@)) ==> {
                let e = final(self).entries()[key@];
                &&& final(self).entries().contains_key(key@)
                &&& e.status == status && e.headers == headers && e.body == body
                &&& e.vary_on@.map_values(|s: String| s@) == vary_list(hview(headers@))
                &&& put_effect(old(self).entries(), final(self).entries(), old(self).capacity(), key@, e)
            },
    {
        let now = crate::clock::now_millis();
        self.put_at(key, status, headers, body, now)
    }

    /// How many entries there are, the capacity, and the settings.
    pub fn stats(&self) -> (s: CacheStats)
        ensures
            s.enabled == self.on(),
            s.entries == self.entries().len(),
            s.capacity == self.capacity(),
            s.ttl_secs == self.ttl(),
    {
        CacheStats {
            enabled: self.enabled,
            entries: lru_len(&self.cache),
            capacity: lru_cap(&self.cache),
            ttl_secs: self.ttl_secs,
        }
    }

    /// The cache key of a request: `METHOD:path`, with `?query` when there is one.
    pub fn make_key(method: &str, path: &str, query: &str) -> (k: String)
        ensures
            k@ == if query@.len() == 0 {
                method@ + ":"@ + path@
            } else {
                method@ + ":"@ + path@ + "?"@ + query@
            },
    {
        let m = chars_of(method);
        let a = concat(m.as_slice(), chars_of(":").as_slice());
        let b = concat(a.as_slice(), chars_of(path).as_slice());
        let q = chars_of(query);
        if q.len() == 0 {
            string_of(b.as_slice())
        } else {
            let c = concat(b.as_slice(), chars_of("?").as_slice());
            let d = concat(c.as_slice(), q.as_slice());
            string_of(d.as_slice())
        }
    }
}

/// A response just stored is served to a request that carries the same
/// varying headers as the stored response until its time-to-live has passed.
pub proof fn law_fresh_entry_served(e: CachedResponse, ttl_secs: u64, now_ms: u64)
    requires
        e.cached_at_ms <= now_ms,
        now_ms - e.cached_at_ms < ttl_secs * 1000,
    ensures
        !expired(e, ttl_secs, now_ms),
        vary_match(e, hview(e.headers@)),
{
}

/// With a time-to-live of zero nothing is ever served.
pub proof fn law_zero_ttl_serves_nothing(e: CachedResponse, now_ms: u64)
    ensures
        expired(e, 0, now_ms),
{
}

} // verus!
