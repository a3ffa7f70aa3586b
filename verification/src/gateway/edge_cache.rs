//! Edge cache for conditional GET: responses stored under a key with an
//! entity tag derived from the body, served while fresh, answered with
//! "not modified" when the client already holds the same tag, and the oldest
//! entry evicted when the cache is full.
use vstd::prelude::*;
use crate::store::VecMap;
use crate::text::{chars_of, eq};
use crate::crypto::{sha256, sha256_of, hex_seq, hex_encode};
use crate::gateway::transform::copy_pairs;

verus! {

/// A stored response with its entity tag and freshness.
pub struct EdgeCacheEntry {
    pub etag: String,
    pub body: Vec<u8>,
    pub content_type: String,
    pub status: u16,
    pub headers: Vec<(String, String)>,
    /// Clock reading, in seconds, when it was stored.
    pub created_at: u64,
    pub ttl_secs: u64,
    /// How many times it was served.
    pub hits: u64,
}

/// What a lookup decides.
pub enum CacheDecision {
    /// Serve the stored response.
    Hit(EdgeCacheEntry),
    /// The client's copy is current: answer 304 with the tag.
    NotModified { etag: String },
    /// Go to the upstream.
    Miss,
}

/// Counters of the cache.
pub struct EdgeCacheStats {
    pub entries: usize,
    pub max_entries: usize,
    pub total_hits: u64,
    pub enabled: bool,
}

/// The edge cache.
pub struct EdgeCache {
    entries: VecMap<Vec<char>, EdgeCacheEntry>,
    max_entries: usize,
    enabled: bool,
}

/// Two entries hold the same values.
pub open spec fn same_entry(a: EdgeCacheEntry, b: EdgeCacheEntry) -> bool {
    &&& a.etag@ == b.etag@
    &&& a.body@ == b.body@
    &&& a.content_type@ == b.content_type@
    &&& a.status == b.status
    &&& a.headers@ == b.headers@
    &&& a.created_at == b.created_at
    &&& a.ttl_secs == b.ttl_secs
    &&& a.hits == b.hits
}

/// The entity tag of a body: the first 16 bytes of its SHA-256 digest in
/// lower-case hexadecimal.
pub open spec fn etag_of(body: Seq<u8>) -> Seq<char> {
    hex_seq(sha256_of(body).subrange(0, 16))
}

/// An entry is still fresh at `now` (expiry is strictly after its lifetime).
pub open spec fn fresh(e: EdgeCacheEntry, now: u64) -> bool {
    now <= e.created_at + e.ttl_secs
}

/// An `If-None-Match` value names the tag, bare or quoted.
pub open spec fn etag_matches(client: Seq<char>, etag: Seq<char>) -> bool {
    client == etag || client == seq!['"'] + etag + seq!['"']
}

/// The text of an optional string slice.
pub open spec fn opt_seq(o: Option<&str>) -> Option<Seq<char>> {
    match o {
        Some(c) => Some(c@),
        None => None,
    }
}

/// What looking `key` up at `now` does: a miss when the cache is off or
/// has no entry; an expired entry is dropped and missed; a fresh one counts
/// a hit and is answered `NotModified` when the client's tag matches, else
/// served.
pub open spec fn edge_checked(
    on: bool,
    es: Map<Seq<char>, EdgeCacheEntry>,
    after: Map<Seq<char>, EdgeCacheEntry>,
    key: Seq<char>,
    inm: Option<Seq<char>>,
    now: u64,
    r: CacheDecision,
) -> bool {
    if !(on && es.contains_key(key)) {
        r is Miss && after == es
    } else if !fresh(es[key], now) {
        r is Miss && after == es.remove(key)
    } else {
        let e = es[key];
        &&& after == es.insert(key, served(e))
        &&& match inm {
            Some(c) => if etag_matches(c, e.etag@) {
                r matches CacheDecision::NotModified { etag } && etag@ == e.etag@
            } else {
                r matches CacheDecision::Hit(h) && same_entry(h, served(e))
            },
            None => r matches CacheDecision::Hit(h) && same_entry(h, served(e)),
        }
    }
}

/// The entry after one more serve (the count stops at its maximum).
pub open spec fn served(e: EdgeCacheEntry) -> EdgeCacheEntry {
    EdgeCacheEntry { hits: if e.hits < u64::MAX { (e.hits + 1) as u64 } else { e.hits }, ..e }
}

/// `v` is a key of `m` whose entry is no younger than any other.
pub open spec fn oldest_in(m: Map<Seq<char>, EdgeCacheEntry>, v: Seq<char>) -> bool {
    &&& m.contains_key(v)
    &&& forall|k: Seq<char>| #[trigger] m.contains_key(k) ==> m[v].created_at <= m[k].created_at
}

/// A store evicts first: the cache holds entries and is at its capacity.
pub open spec fn full(m: Map<Seq<char>, EdgeCacheEntry>, cap: nat) -> bool {
    m.len() >= cap && m.len() > 0
}

/// The entry a store makes.
pub open spec fn new_entry(
    e: EdgeCacheEntry,
    etag: Seq<char>,
    body: Vec<u8>,
    content_type: String,
    status: u16,
    headers: Vec<(String, String)>,
    ttl_secs: u64,
    now: u64,
) -> bool {
    &&& e.etag@ == etag
    &&& e.body == body
    &&& e.content_type == content_type
    &&& e.status == status
    &&& e.headers == headers
    &&& e.created_at == now
    &&& e.ttl_secs == ttl_secs
    &&& e.hits == 0
}

/// The sum of the hit counts of the entries under `ks`.
pub open spec fn hits_total(m: Map<Seq<char>, EdgeCacheEntry>, ks: Seq<Seq<char>>) -> int
    decreases ks.len(),
{
    if ks.len() == 0 {
        0
    } else {
        hits_total(m, ks.drop_last()) + m[ks.last()].hits
    }
}

fn copy_entry(e: &EdgeCacheEntry) -> (r: EdgeCacheEntry)
    ensures
        same_entry(r, *e),
{
    let mut body: Vec<u8> = Vec::new();
    let mut i: usize = 0;
    while i < e.body.len()
        invariant
            i <= e.body@.len(),
            body@ == e.body@.subrange(0, i as int),
        decreases e.body@.len() - i,
    {
        body.push(e.body[i]);
        assert(body@ =~= e.body@.subrange(0, i + 1));
        i = i + 1;
    }
    assert(e.body@.subrange(0, e.body@.len() as int) =~= e.body@);
    EdgeCacheEntry {
        etag: e.etag.clone(),
        body,
        content_type: e.content_type.clone(),
        status: e.status,
        headers: copy_pairs(&e.headers),
        created_at: e.created_at,
        ttl_secs: e.ttl_secs,
        hits: e.hits,
    }
}

fn etag_hit(client: &str, etag: &String) -> (r: bool)
    ensures
        r == etag_matches(client@, etag@),
{
    let c = chars_of(client);
    let t = chars_of(etag.as_str());
    if eq(c.as_slice(), t.as_slice()) {
        return true;
    }
    let mut quoted: Vec<char> = Vec::new();
    quoted.push('"');
    let mut i: usize = 0;
    while i < t.len()
        invariant
            i <= t@.len(),
            quoted@ == seq!['"'] + t@.subrange(0, i as int),
        decreases t@.len() - i,
    {
        quoted.push(t[i]);
        assert(quoted@ =~= seq!['"'] + t@.subrange(0, i + 1));
        i = i + 1;
    }
    quoted.push('"');
    assert(quoted@ =~= seq!['"'] + t@ + seq!['"']);
    eq(c.as_slice(), quoted.as_slice())
}

impl EdgeCache {
    /// The stored entries, by key.
    pub closed spec fn entries(&self) -> Map<Seq<char>, EdgeCacheEntry> {
        self.entries.map()
    }

    /// The keys in the order they are kept.
    pub closed spec fn keys(&self) -> Seq<Seq<char>> {
        self.entries.keys()
    }

    /// Whether lookups are served.
    pub closed spec fn on(&self) -> bool {
        self.enabled
    }

    /// The entry count at which a store evicts.
    pub closed spec fn cap(&self) -> nat {
        self.max_entries as nat
    }

    /// An empty cache.
    pub fn new(max_entries: usize, enabled: bool) -> (c: Self)
        ensures
            c.entries() == Map::<Seq<char>, EdgeCacheEntry>::empty(),
            c.on() == enabled,
            c.cap() == max_entries,
    {
        EdgeCache { entries: VecMap::new(), max_entries, enabled }
    }

    /// Looks `key` up at clock reading `now` (seconds), with the client's
    /// `If-None-Match` value if it sent one. An expired entry is dropped;
    /// a served one counts a hit.
    pub fn check_at(&mut self, key: &str, if_none_match: Option<&str>, now: u64) -> (r: CacheDecision)
        ensures
            final(self).on() == old(self).on(),
            final(self).cap() == old(self).cap(),
            !(old(self).on() && old(self).entries().contains_key(key@)) ==> r is Miss && final(self).entries()
                == old(self).entries(),
            old(self).on() && old(self).entries().contains_key(key@) && !fresh(old(self).entries()[key@], now) ==> r is Miss
                && final(self).entries() == old(self).entries().remove(key@),
            old(self).on() && old(self).entries().contains_key(key@) && fresh(old(self).entries()[key@], now) ==> {
                let e = old(self).entries()[key@];
                &&& final(self).entries() == old(self).entries().insert(key@, served(e))
                &&& match if_none_match {
                    Some(c) if etag_matches(c@, e.etag@) => r matches CacheDecision::NotModified { etag } && etag@
                        == e.etag@,
                    _ => r matches CacheDecision::Hit(h) && same_entry(h, served(e)),
                }
            },
    {
        if !self.enabled {
            return CacheDecision::Miss;
        }
        let k = chars_of(key);
        let taken = self.entries.remove(&k);
        match taken {
            None => {
                proof {
                    assert(self.entries() =~= old(self).entries());
                }
                CacheDecision::Miss
            },
            Some(mut e) => {
                if now > e.created_at && now - e.created_at > e.ttl_secs {
                    return CacheDecision::Miss;
                }
                e.hits = if e.hits < u64::MAX {
                    e.hits + 1
                } else {
                    e.hits
                };
                let matched = match if_none_match {
                    Some(c) => etag_hit(c, &e.etag),
                    None => false,
                };
                let r = if matched {
                    CacheDecision::NotModified { etag: e.etag.clone() }
                } else {
                    CacheDecision::Hit(copy_entry(&e))
                };
                self.entries.insert(k, e);
                proof {
                    let ghost o = old(self).entries();
                    assert(o.remove(key@).insert(key@, served(o[key@])) =~= o.insert(key@, served(o[key@])));
                }
                r
            },
        }
    }

    /// `check_at` at the current clock reading.
    pub fn check(&mut self, key: &str, if_none_match: Option<&str>) -> (r: CacheDecision)
        ensures
            final(self).on() == old(self).on(),
            final(self).cap() == old(self).cap(),
            !(old(self).on() && old(self).entries().contains_key(key@)) ==> r is Miss && final(self).entries()
                == old(self).entries(),
            r is NotModified ==> old(self).entries().contains_key(key@) && (if_none_match matches Some(c)
                && etag_matches(c@, old(self).entries()[key@].etag@)),
            exists|now: u64| #[trigger] edge_checked(
                old(self).on(),
                old(self).entries(),
                final(self).entries(),
                key@,
                opt_seq(if_none_match),
                now,
                r,
            ),
    {
        let now = crate::clock::now_secs();
        let r = self.check_at(key, if_none_match, now);
        assert(edge_checked(old(self).on(), old(self).entries(), self.entries(), key@, opt_seq(if_none_match), now, r));
        r
    }

    /// Stores a response under `key` at clock reading `now`, first evicting
    /// the oldest entry when the cache is full; gives the entity tag.
    pub fn store_at(
        &mut self,
        key: String,
        body: Vec<u8>,
        content_type: String,
        status: u16,
        headers: Vec<(String, String)>,
        ttl_secs: u64,
        now: u64,
    ) -> (etag: String)
        ensures
            etag@ == etag_of(body@),
            final(self).on() == old(self).on(),
            final(self).cap() == old(self).cap(),
            final(self).entries().contains_key(key@),
            new_entry(final(self).entries()[key@], etag@, body, content_type, status, headers, ttl_secs, now),
            full(old(self).entries(), old(self).cap()) ==> exists|v: Seq<char>|
                #![trigger old(self).entries().remove(v)]
                oldest_in(old(self).entries(), v) && final(self).entries().remove(key@) == old(self).entries().remove(v).remove(key@),
            !full(old(self).entries(), old(self).cap()) ==> final(self).entries().remove(key@) == old(self).entries().remove(key@),
    {
        let n = self.entries.len();
        proof {
            self.keys().unique_seq_to_set();
            assert(self.entries().dom() =~= self.keys().to_set());
        }
        let ghost before = self.entries();
        if n >= self.max_entries && n > 0 {
            let mut best: usize = 0;
            let mut i: usize = 1;
            while i < n
                invariant
                    n == self.keys().len(),
                    1 <= i <= n,
                    best < n,
                    self.entries() == before,
                    forall|j: int|
                        0 <= j < i ==> before[self.keys()[best as int]].created_at <= before[#[trigger] self.keys()[j]].created_at,
                    forall|k: Seq<char>| before.contains_key(k) <==> self.keys().contains(k),
                decreases n - i,
            {
                let (_, ei) = self.entries.entry_at(i);
                let (_, eb) = self.entries.entry_at(best);
                if ei.created_at < eb.created_at {
                    best = i;
                }
                i = i + 1;
            }
            let (vk, _) = self.entries.entry_at(best);
            let victim = crate::text::slice(vk.as_slice(), 0, vk.len());
            proof {
                assert(victim@ =~= self.keys()[best as int]);
                assert forall|k: Seq<char>| #[trigger] before.contains_key(k) implies before[victim@].created_at
                    <= before[k].created_at by {
                    let j = self.keys().index_of(k);
                    assert(self.keys()[j] == k);
                }
            }
            self.entries.remove(&victim);
            let ghost after_evict = self.entries();
            let etag = self.put_entry(key, body, content_type, status, headers, ttl_secs, now);
            proof {
                assert(oldest_in(before, victim@));
                assert(self.entries().remove(key@) =~= before.remove(victim@).remove(key@));
            }
            etag
        } else {
            let etag = self.put_entry(key, body, content_type, status, headers, ttl_secs, now);
            proof {
                assert(self.entries().remove(key@) =~= before.remove(key@));
            }
            etag
        }
    }

    fn put_entry(
        &mut self,
        key: String,
        body: Vec<u8>,
        content_type: String,
        status: u16,
        headers: Vec<(String, String)>,
        ttl_secs: u64,
        now: u64,
    ) -> (etag: String)
        ensures
            etag@ == etag_of(body@),
            final(self).on() == old(self).on(),
            final(self).cap() == old(self).cap(),
            final(self).entries().contains_key(key@),
            new_entry(final(self).entries()[key@], etag@, body, content_type, status, headers, ttl_secs, now),
            final(self).entries().remove(key@) == old(self).entries().remove(key@),
    {
        let digest = sha256(body.as_slice());
        let mut head: Vec<u8> = Vec::new();
        let mut i: usize = 0;
        while i < 16
            invariant
                i <= 16,
                digest@.len() == 32,
                head@ == digest@.subrange(0, i as int),
            decreases 16 - i,
        {
            head.push(digest[i]);
            assert(head@ =~= digest@.subrange(0, i + 1));
            i = i + 1;
        }
        let etag = hex_encode(head.as_slice());
        let entry = EdgeCacheEntry {
            etag: etag.clone(),
            body,
            content_type,
            status,
            headers,
            created_at: now,
            ttl_secs,
            hits: 0,
        };
        let k = chars_of(key.as_str());
        self.entries.insert(k, entry);
        proof {
            assert(self.entries().remove(key@) =~= old(self).entries().remove(key@));
        }
        etag
    }

    /// `store_at` at the current clock reading.
    pub fn store(
        &mut self,
        key: String,
        body: Vec<u8>,
        content_type: String,
        status: u16,
        headers: Vec<(String, String)>,
        ttl_secs: u64,
    ) -> (etag: String)
        ensures
            etag@ == etag_of(body@),
            final(self).on() == old(self).on(),
            final(self).cap() == old(self).cap(),
            final(self).entries().contains_key(key@),
            final(self).entries()[key@].etag@ == etag@,
    {
        let now = crate::clock::now_secs();
        self.store_at(key, body, content_type, status, headers, ttl_secs, now)
    }

    /// The entry count, the capacity, the hits of all entries (stopping at
    /// the maximum) and whether lookups are served.
    pub fn stats(&self) -> (s: EdgeCacheStats)
        ensures
            s.entries == self.entries().len(),
            s.max_entries == self.cap(),
            s.enabled == self.on(),
            s.total_hits == if hits_total(self.entries(), self.keys()) <= u64::MAX {
                hits_total(self.entries(), self.keys())
            } else {
                u64::MAX as int
            },
    {
        let n = self.entries.len();
        proof {
            self.keys().unique_seq_to_set();
            assert(self.entries().dom() =~= self.keys().to_set());
        }
        let mut total: u64 = 0;
        let mut i: usize = 0;
        while i < n
            invariant
                n == self.keys().len(),
                i <= n,
                total == if hits_total(self.entries(), self.keys().subrange(0, i as int)) <= u64::MAX {
                    hits_total(self.entries(), self.keys().subrange(0, i as int))
                } else {
                    u64::MAX as int
                },
            decreases n - i,
        {
            let (_, e) = self.entries.entry_at(i);
            proof {
                assert(self.keys().subrange(0, i + 1).drop_last() =~= self.keys().subrange(0, i as int));
            }
            total = total.saturating_add(e.hits);
            i = i + 1;
        }
        assert(self.keys().subrange(0, n as int) =~= self.keys());
        EdgeCacheStats { entries: n, max_entries: self.max_entries, total_hits: total, enabled: self.enabled }
    }

    /// Drops every entry.
    pub fn clear(&mut self)
        ensures
            final(self).entries() == Map::<Seq<char>, EdgeCacheEntry>::empty(),
            final(self).on() == old(self).on(),
            final(self).cap() == old(self).cap(),
    {
        self.entries = VecMap::new();
    }

    /// Whether lookups are served.
    pub fn is_enabled(&self) -> (r: bool)
        ensures
            r == self.on(),
    {
        self.enabled
    }
}

/// A response just stored stays fresh for its whole lifetime, a client that
/// presents the tag the store gave back (bare or quoted) is answered "not
/// modified", and its first serve counts one hit.
pub proof fn law_stored_entry_revalidates(
    e: EdgeCacheEntry,
    etag: Seq<char>,
    body: Vec<u8>,
    content_type: String,
    status: u16,
    headers: Vec<(String, String)>,
    ttl_secs: u64,
    stored_at: u64,
    now: u64,
)
    requires
        new_entry(e, etag, body, content_type, status, headers, ttl_secs, stored_at),
        now <= stored_at + ttl_secs,
    ensures
        fresh(e, now),
        etag_matches(etag, e.etag@),
        etag_matches(seq!['"'] + etag + seq!['"'], e.etag@),
        served(e).hits == 1,
        served(e).body == body,
{
}

} // verus!
