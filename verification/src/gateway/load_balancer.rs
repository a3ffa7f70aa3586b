//! Upstream selection: round robin per service, random, or least connections.
use vstd::prelude::*;
use dashmap::DashMap;
use crate::text::{chars_of, string_of, eq_str, lowercased, to_lowercase};

verus! {

/// Load-balancing strategies.
#[derive(Debug, Clone, Copy, PartialEq, Eq, Structural)]
pub enum LoadBalanceStrategy {
    RoundRobin,
    Random,
    LeastConnections,
}

/// The strategy a lower-cased name stands for; unknown names mean round robin.
pub open spec fn strategy_named(l: Seq<char>) -> LoadBalanceStrategy {
    if l == "random"@ {
        LoadBalanceStrategy::Random
    } else if l == "least-connections"@ || l == "least_connections"@ {
        LoadBalanceStrategy::LeastConnections
    } else {
        LoadBalanceStrategy::RoundRobin
    }
}

impl LoadBalanceStrategy {
    /// The strategy for a lower-cased name.
    pub fn from_lower(l: &[char]) -> (s: Self)
        ensures
            s == strategy_named(l@),
    {
        if eq_str(l, "random") {
            LoadBalanceStrategy::Random
        } else if eq_str(l, "least-connections") || eq_str(l, "least_connections") {
            LoadBalanceStrategy::LeastConnections
        } else {
            LoadBalanceStrategy::RoundRobin
        }
    }

    /// The strategy for a configured name, compared after lower-casing.
    pub fn from_str(s: &str) -> (r: Self)
        ensures
            r == strategy_named(lowercased(s@)),
    {
        let l = to_lowercase(s);
        let cs = chars_of(l.as_str());
        Self::from_lower(cs.as_slice())
    }
}

/// Round-robin counters per service and open connections per upstream.
pub struct LoadBalancer {
    counters: DashMap<u128, usize>,
    connections: DashMap<String, usize>,
}

/// The entries of a map of round-robin counters, by service id.
pub uninterp spec fn counter_map(m: DashMap<u128, usize>) -> Map<u128, usize>;

/// The entries of a map of connection counts, keyed by the upstream's text.
pub uninterp spec fn connection_map(m: DashMap<String, usize>) -> Map<Seq<char>, usize>;

/// `DashMap::new`: no counters.
#[verifier::external_body]
fn counters_new() -> (r: DashMap<u128, usize>)
    ensures
        counter_map(r).dom() == Set::<u128>::empty(),
{
    DashMap::new()
}

/// `DashMap::get`, the count copied out of the guard it gives.
#[verifier::external_body]
fn counters_get(m: &DashMap<u128, usize>, id: u128) -> (r: Option<usize>)
    ensures
        r == (if counter_map(*m).contains_key(id) {
            Some(counter_map(*m)[id])
        } else {
            None::<usize>
        }),
{
    match m.get(&id) {
        Some(v) => Some(*v.value()),
        None => None,
    }
}

/// `DashMap::insert`: the counter of `id` is set, the others kept.
#[verifier::external_body]
fn counters_insert(m: &mut DashMap<u128, usize>, id: u128, v: usize)
    ensures
        counter_map(*final(m)) == counter_map(*old(m)).insert(id, v),
{
    m.insert(id, v);
}

/// `DashMap::new`: no connection counts.
#[verifier::external_body]
fn connections_new() -> (r: DashMap<String, usize>)
    ensures
        connection_map(r).dom() == Set::<Seq<char>>::empty(),
{
    DashMap::new()
}

/// `DashMap::get` by the upstream's text (`String` borrows as `str`, and
/// two strings are the same key exactly when their texts are equal), the
/// count copied out of the guard it gives.
#[verifier::external_body]
fn connections_get(m: &DashMap<String, usize>, key: &str) -> (r: Option<usize>)
    ensures
        r == (if connection_map(*m).contains_key(key@) {
            Some(connection_map(*m)[key@])
        } else {
            None::<usize>
        }),
{
    match m.get(key) {
        Some(v) => Some(*v.value()),
        None => None,
    }
}

/// `DashMap::insert`: the count of the upstream `key` is set, the others
/// kept.
#[verifier::external_body]
fn connections_insert(m: &mut DashMap<String, usize>, key: String, v: usize)
    ensures
        connection_map(*final(m)) == connection_map(*old(m)).insert(key@, v),
{
    m.insert(key, v);
}

/// The open connections counted for an upstream (none when never seen).
pub open spec fn conn_count(m: Map<Seq<char>, usize>, u: Seq<char>) -> usize {
    if m.contains_key(u) {
        m[u]
    } else {
        0
    }
}

/// The position least-connections picks among `ups`: the first with the
/// fewest open connections.
pub open spec fn least_index(m: Map<Seq<char>, usize>, ups: Seq<Seq<char>>) -> int
    decreases ups.len(),
{
    if ups.len() <= 1 {
        0
    } else {
        let i = least_index(m, ups.drop_last());
        if conn_count(m, ups.last()) < conn_count(m, ups[i]) {
            ups.len() - 1
        } else {
            i
        }
    }
}

proof fn lemma_least_index(m: Map<Seq<char>, usize>, ups: Seq<Seq<char>>)
    requires
        ups.len() >= 1,
    ensures
        0 <= least_index(m, ups) < ups.len(),
        forall|j: int| 0 <= j < ups.len() ==> conn_count(m, ups[least_index(m, ups)]) <= conn_count(m, #[trigger] ups[j]),
        forall|j: int| 0 <= j < least_index(m, ups) ==> conn_count(m, ups[least_index(m, ups)]) < conn_count(m, #[trigger] ups[j]),
    decreases ups.len(),
{
    if ups.len() > 1 {
        let p = ups.drop_last();
        lemma_least_index(m, p);
        let i = least_index(m, p);
        assert(p[i] == ups[i]);
        assert forall|j: int| 0 <= j < ups.len() implies conn_count(m, ups[least_index(m, ups)]) <= conn_count(m, #[trigger] ups[j]) by {
            if j < ups.len() - 1 {
                assert(p[j] == ups[j]);
            }
        }
        assert forall|j: int| 0 <= j < least_index(m, ups) implies conn_count(m, ups[least_index(m, ups)]) < conn_count(m, #[trigger] ups[j]) by {
            if j < ups.len() - 1 {
                assert(p[j] == ups[j]);
            }
        }
    }
}

impl LoadBalancer {
    /// Round-robin counters by service id.
    pub closed spec fn counters(&self) -> Map<u128, usize> {
        counter_map(self.counters)
    }

    /// Open connections by upstream.
    pub closed spec fn connections(&self) -> Map<Seq<char>, usize> {
        connection_map(self.connections)
    }

    pub fn new() -> (lb: Self)
        ensures
            lb.counters() == Map::<u128, usize>::empty(),
            lb.connections() == Map::<Seq<char>, usize>::empty(),
    {
        let lb = LoadBalancer { counters: counters_new(), connections: connections_new() };
        assert(lb.counters() =~= Map::<u128, usize>::empty());
        assert(lb.connections() =~= Map::<Seq<char>, usize>::empty());
        lb
    }

    /// Picks an upstream: none (empty text) from an empty list, the only one
    /// from a list of one; otherwise round robin advances the service's
    /// counter (wrapping) and takes counter mod length, random takes
    /// `entropy` mod length, and least connections takes the first upstream
    /// with the fewest open connections.
    pub fn select_upstream(&mut self, service_id: u128, upstreams: &[String], strategy: &LoadBalanceStrategy, entropy: usize) -> (r: String)
        ensures
            final(self).connections() == old(self).connections(),
            ({
                let ups = upstreams@.map_values(|s: String| s@);
                let c = if old(self).counters().contains_key(service_id) { old(self).counters()[service_id] } else { 0usize };
                let n = upstreams@.len();
                &&& n == 0 ==> r@ == Seq::<char>::empty()
                &&& n == 1 ==> r@ == ups[0]
                &&& (n < 2 || *strategy != LoadBalanceStrategy::RoundRobin) ==> final(self).counters() == old(self).counters()
                &&& n >= 2 && *strategy == LoadBalanceStrategy::RoundRobin ==> {
                    &&& r@ == ups[(c as int) % (n as int)]
                    &&& final(self).counters() == old(self).counters().insert(service_id, (if c == usize::MAX { 0 } else { c + 1 }) as usize)
                }
                &&& n >= 2 && *strategy == LoadBalanceStrategy::Random ==> r@ == ups[(entropy as int) % (n as int)]
                &&& n >= 2 && *strategy == LoadBalanceStrategy::LeastConnections ==> r@ == ups[least_index(old(self).connections(), ups)]
            }),
    {
        let ghost ups = upstreams@.map_values(|s: String| s@);
        let n = upstreams.len();
        if n == 0 {
            return string_of(Vec::new().as_slice());
        }
        if n == 1 {
            return string_of(chars_of(upstreams[0].as_str()).as_slice());
        }
        match strategy {
            LoadBalanceStrategy::RoundRobin => {
                let c: usize = match counters_get(&self.counters, service_id) {
                    Some(v) => v,
                    None => 0,
                };
                let next: usize = if c == usize::MAX { 0 } else { c + 1 };
                counters_insert(&mut self.counters, service_id, next);
                let idx = c % n;
                string_of(chars_of(upstreams[idx].as_str()).as_slice())
            },
            LoadBalanceStrategy::Random => {
                let idx = entropy % n;
                string_of(chars_of(upstreams[idx].as_str()).as_slice())
            },
            LoadBalanceStrategy::LeastConnections => {
                let ghost m = self.connections();
                let mut best: usize = 0;
                let mut min_conn: usize = usize::MAX;
                let mut i: usize = 0;
                while i < n
                    invariant
                        n == upstreams@.len(),
                        n >= 2,
                        ups == upstreams@.map_values(|s: String| s@),
                        m == self.connections(),
                        1 <= i + 1,
                        i <= n,
                        best < n,
                        i == 0 ==> best == 0 && min_conn == usize::MAX,
                        i > 0 ==> best == least_index(m, ups.subrange(0, i as int)) && min_conn == conn_count(m, ups[best as int]),
                    decreases n - i,
                {
                    let cc: usize = match connections_get(&self.connections, upstreams[i].as_str()) {
                        Some(v) => v,
                        None => 0,
                    };
                    proof {
                        assert(upstreams@[i as int]@ == ups[i as int]);
                        assert(ups.subrange(0, i + 1).drop_last() =~= ups.subrange(0, i as int));
                        if i > 0 {
                            lemma_least_index(m, ups.subrange(0, i as int));
                        }
                    }
                    if cc < min_conn {
                        min_conn = cc;
                        best = i;
                    }
                    i = i + 1;
                }
                proof {
                    assert(ups.subrange(0, n as int) =~= ups);
                }
                string_of(chars_of(upstreams[best].as_str()).as_slice())
            },
        }
    }

    /// Counts one more open connection to the upstream (wrapping).
    pub fn acquire_connection(&mut self, upstream: &str)
        ensures
            final(self).counters() == old(self).counters(),
            final(self).connections() == old(self).connections().insert(
                upstream@,
                (if conn_count(old(self).connections(), upstream@) == usize::MAX { 0 } else { conn_count(old(self).connections(), upstream@) + 1 }) as usize,
            ),
    {
        let c: usize = match connections_get(&self.connections, upstream) {
            Some(v) => v,
            None => 0,
        };
        let next: usize = if c == usize::MAX { 0 } else { c + 1 };
        connections_insert(&mut self.connections, string_of(chars_of(upstream).as_slice()), next);
    }

    /// Counts one connection less for a known upstream, never below zero.
    pub fn release_connection(&mut self, upstream: &str)
        ensures
            final(self).counters() == old(self).counters(),
            old(self).connections().contains_key(upstream@) && old(self).connections()[upstream@] > 0
                ==> final(self).connections() == old(self).connections().insert(upstream@, (old(self).connections()[upstream@] - 1) as usize),
            !(old(self).connections().contains_key(upstream@) && old(self).connections()[upstream@] > 0)
                ==> final(self).connections() == old(self).connections(),
    {
        let c: usize = match connections_get(&self.connections, upstream) {
            Some(v) => v,
            None => 0,
        };
        if c > 0 {
            connections_insert(&mut self.connections, string_of(chars_of(upstream).as_slice()), c - 1);
        }
    }

    /// The open connections counted for an upstream.
    pub fn connection_count(&self, upstream: &str) -> (n: usize)
        ensures
            n == conn_count(self.connections(), upstream@),
    {
        match connections_get(&self.connections, upstream) {
            Some(v) => v,
            None => 0,
        }
    }
}

/// Releasing a connection undoes acquiring one.
pub proof fn law_release_undoes_acquire(m: Map<Seq<char>, usize>, u: Seq<char>)
    requires
        conn_count(m, u) < usize::MAX,
    ensures
        ({
            let acquired = m.insert(u, (conn_count(m, u) + 1) as usize);
            let released = acquired.insert(u, (acquired[u] - 1) as usize);
            conn_count(released, u) == conn_count(m, u)
                && forall|v: Seq<char>| v != u ==> conn_count(released, v) == conn_count(m, v)
        }),
{
}

/// Round robin visits every upstream: over `n` consecutive picks starting
/// from counter `c` (no wrap in between), every position is picked.
pub proof fn law_round_robin_covers(c: int, n: int, j: int)
    requires
        c >= 0,
        n >= 2,
        0 <= j < n,
    ensures
        exists|k: int| 0 <= k < n && #[trigger] ((c + k) % n) == j,
{
    let k = (j - c) % n;
    vstd::arithmetic::div_mod::lemma_mod_bound(j - c, n);
    vstd::arithmetic::div_mod::lemma_add_mod_noop(c, j - c, n);
    vstd::arithmetic::div_mod::lemma_mod_twice(j - c, n);
    vstd::arithmetic::div_mod::lemma_mod_twice(c, n);
    vstd::arithmetic::div_mod::lemma_small_mod(j as nat, n as nat);
    vstd::arithmetic::div_mod::lemma_add_mod_noop(c, k, n);
    assert((c + k) % n == j);
}

} // verus!
