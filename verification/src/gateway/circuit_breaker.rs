//! Per-service circuit breaker with half-open probe limiting.
//!
//! A breaker is `Closed` until `failure_threshold` failures accumulate, then
//! `Open`: requests are refused until `reset_timeout_secs` have passed since the
//! last failure. The first request after that moves it to `HalfOpen`, where at
//! most `half_open_max_requests` probes are in flight at once; that many
//! successes close it again, and any failure reopens it.
//!
//! Time is a millisecond clock reading handed in by the caller.
use vstd::prelude::*;
use dashmap::DashMap;

verus! {

/// Circuit breaker states.
#[derive(Debug, Clone, Copy, PartialEq, Eq, Structural)]
pub enum CircuitState {
    /// Requests pass.
    Closed,
    /// Requests are refused.
    Open,
    /// A bounded number of probe requests pass.
    HalfOpen,
}

impl CircuitState {
    /// The display form of the state.
    pub fn label(&self) -> (s: &'static str)
        ensures
            *self == CircuitState::Closed ==> s@ == "CLOSED"@,
            *self == CircuitState::Open ==> s@ == "OPEN"@,
            *self == CircuitState::HalfOpen ==> s@ == "HALF_OPEN"@,
    {
        match self {
            CircuitState::Closed => "CLOSED",
            CircuitState::Open => "OPEN",
            CircuitState::HalfOpen => "HALF_OPEN",
        }
    }
}

/// The state kept for one service.
#[derive(Debug, Clone, Copy, PartialEq, Eq, Structural)]
pub struct CircuitBreakerEntry {
    pub state: CircuitState,
    pub failure_count: u32,
    /// Probes that completed successfully while half-open.
    pub success_count_half_open: u32,
    /// Probes admitted while half-open that have not yet reported back.
    pub in_flight_probes: u32,
    /// Clock reading (ms) of the last recorded failure.
    pub last_failure_time: Option<u64>,
    /// Clock reading (ms) of the last state change.
    pub last_state_change: u64,
}

/// A closed breaker with no history, created at `now`.
pub open spec fn fresh_entry(now: u64) -> CircuitBreakerEntry {
    CircuitBreakerEntry {
        state: CircuitState::Closed,
        failure_count: 0,
        success_count_half_open: 0,
        in_flight_probes: 0,
        last_failure_time: None,
        last_state_change: now,
    }
}

/// `x`, raised to 1 when it is 0.
pub open spec fn at_least_one(x: u32) -> u32 {
    if x < 1 {
        1
    } else {
        x
    }
}

/// Milliseconds elapsed from `since` to `now`, zero if the clock went back.
pub open spec fn elapsed_ms(since: u64, now: u64) -> int {
    if now >= since {
        now - since
    } else {
        0
    }
}

/// Whether the reset timeout has passed for an open breaker.
pub open spec fn timeout_passed(e: CircuitBreakerEntry, reset_secs: u64, now: u64) -> bool {
    match e.last_failure_time {
        Some(t) => elapsed_ms(t, now) >= reset_secs * 1000,
        None => false,
    }
}

/// The admission decision and the entry after it.
pub open spec fn gate(e: CircuitBreakerEntry, reset_secs: u64, half_max: u32, now: u64) -> (
    CircuitBreakerEntry,
    Result<(), CircuitState>,
) {
    match e.state {
        CircuitState::Closed => (e, Ok(())),
        CircuitState::Open => if timeout_passed(e, reset_secs, now) {
            (
                CircuitBreakerEntry {
                    state: CircuitState::HalfOpen,
                    success_count_half_open: 0,
                    in_flight_probes: 1,
                    last_state_change: now,
                    ..e
                },
                Ok(()),
            )
        } else {
            (e, Err(CircuitState::Open))
        },
        CircuitState::HalfOpen => if e.in_flight_probes < at_least_one(half_max) {
            (CircuitBreakerEntry { in_flight_probes: (e.in_flight_probes + 1) as u32, ..e }, Ok(()))
        } else {
            (e, Err(CircuitState::HalfOpen))
        },
    }
}

/// The entry after a successful request is reported.
pub open spec fn after_success(e: CircuitBreakerEntry, half_max: u32, now: u64) -> CircuitBreakerEntry {
    match e.state {
        CircuitState::HalfOpen => {
            let succ = if e.success_count_half_open == u32::MAX {
                u32::MAX
            } else {
                (e.success_count_half_open + 1) as u32
            };
            let probes = if e.in_flight_probes == 0 {
                0u32
            } else {
                (e.in_flight_probes - 1) as u32
            };
            if succ >= at_least_one(half_max) {
                CircuitBreakerEntry {
                    state: CircuitState::Closed,
                    failure_count: 0,
                    success_count_half_open: succ,
                    in_flight_probes: 0,
                    last_state_change: now,
                    ..e
                }
            } else {
                CircuitBreakerEntry { success_count_half_open: succ, in_flight_probes: probes, ..e }
            }
        },
        _ => e,
    }
}

/// The entry after a failed request is reported.
pub open spec fn after_failure(e: CircuitBreakerEntry, threshold: u32, now: u64) -> CircuitBreakerEntry {
    let count = if e.failure_count == u32::MAX {
        u32::MAX
    } else {
        (e.failure_count + 1) as u32
    };
    let e1 = CircuitBreakerEntry { failure_count: count, last_failure_time: Some(now), ..e };
    match e.state {
        CircuitState::Closed => if count >= at_least_one(threshold) {
            CircuitBreakerEntry { state: CircuitState::Open, last_state_change: now, ..e1 }
        } else {
            e1
        },
        CircuitState::HalfOpen => CircuitBreakerEntry {
            state: CircuitState::Open,
            in_flight_probes: 0,
            success_count_half_open: 0,
            last_state_change: now,
            ..e1
        },
        CircuitState::Open => e1,
    }
}

/// The probe bound: only a half-open breaker has probes in flight, and never
/// more than the configured maximum.
pub open spec fn probes_bounded(e: CircuitBreakerEntry, half_max: u32) -> bool {
    &&& e.in_flight_probes <= at_least_one(half_max)
    &&& e.state != CircuitState::HalfOpen ==> e.in_flight_probes == 0
}

fn raise_to_one(x: u32) -> (r: u32)
    ensures
        r == at_least_one(x),
{
    if x < 1 {
        1
    } else {
        x
    }
}

/// Admission of one request on one entry.
pub fn gate_entry(e: &mut CircuitBreakerEntry, reset_secs: u64, half_max: u32, now: u64) -> (r: Result<(), CircuitState>)
    ensures
        (*final(e), r) == gate(*old(e), reset_secs, half_max, now),
{
    let half = raise_to_one(half_max);
    match e.state {
        CircuitState::Closed => Ok(()),
        CircuitState::Open => {
            match e.last_failure_time {
                Some(t) => {
                    let elapsed: u64 = if now >= t {
                        now - t
                    } else {
                        0
                    };
                    if (elapsed as u128) >= (reset_secs as u128) * 1000 {
                        e.state = CircuitState::HalfOpen;
                        e.success_count_half_open = 0;
                        e.in_flight_probes = 1;
                        e.last_state_change = now;
                        Ok(())
                    } else {
                        Err(CircuitState::Open)
                    }
                },
                None => Err(CircuitState::Open),
            }
        },
        CircuitState::HalfOpen => {
            if e.in_flight_probes < half {
                e.in_flight_probes = e.in_flight_probes + 1;
                Ok(())
            } else {
                Err(CircuitState::HalfOpen)
            }
        },
    }
}

/// Reporting of one successful request on one entry.
pub fn succeed_entry(e: &mut CircuitBreakerEntry, half_max: u32, now: u64)
    ensures
        *final(e) == after_success(*old(e), half_max, now),
{
    let half = raise_to_one(half_max);
    match e.state {
        CircuitState::HalfOpen => {
            e.success_count_half_open = e.success_count_half_open.saturating_add(1);
            e.in_flight_probes = e.in_flight_probes.saturating_sub(1);
            if e.success_count_half_open >= half {
                e.state = CircuitState::Closed;
                e.failure_count = 0;
                e.in_flight_probes = 0;
                e.last_state_change = now;
            }
        },
        _ => {},
    }
}

/// Reporting of one failed request on one entry.
pub fn fail_entry(e: &mut CircuitBreakerEntry, threshold: u32, now: u64)
    ensures
        *final(e) == after_failure(*old(e), threshold, now),
{
    let limit = raise_to_one(threshold);
    let prior = e.state;
    e.failure_count = e.failure_count.saturating_add(1);
    e.last_failure_time = Some(now);
    match prior {
        CircuitState::Closed => {
            if e.failure_count >= limit {
                e.state = CircuitState::Open;
                e.last_state_change = now;
            }
        },
        CircuitState::HalfOpen => {
            e.state = CircuitState::Open;
            e.in_flight_probes = 0;
            e.success_count_half_open = 0;
            e.last_state_change = now;
        },
        CircuitState::Open => {},
    }
}

/// One row of the breaker report.
#[derive(Debug, Clone, Copy, PartialEq, Eq, Structural)]
pub struct BreakerReport {
    pub service_id: u128,
    pub state: CircuitState,
    pub failure_count: u32,
    /// Seconds since the last state change.
    pub since_secs: u64,
}

/// `dashmap::DashMap`, a concurrent hash map.
#[verifier::external_type_specification]
#[verifier::external_body]
#[verifier::reject_recursive_types(K)]
#[verifier::reject_recursive_types(V)]
#[verifier::reject_recursive_types(S)]
pub struct ExDashMap<K, V, S>(dashmap::DashMap<K, V, S>);

/// The entries of a map of breakers, by service id.
pub uninterp spec fn breaker_map(m: DashMap<u128, CircuitBreakerEntry>) -> Map<u128, CircuitBreakerEntry>;

/// `DashMap::new`: an empty map.
#[verifier::external_body]
fn breakers_new() -> (r: DashMap<u128, CircuitBreakerEntry>)
    ensures
        breaker_map(r).dom() == Set::<u128>::empty(),
{
    DashMap::new()
}

/// `DashMap::get`, the entry copied out of the guard it gives.
#[verifier::external_body]
fn breakers_get(m: &DashMap<u128, CircuitBreakerEntry>, id: u128) -> (r: Option<CircuitBreakerEntry>)
    ensures
        r == (if breaker_map(*m).contains_key(id) {
            Some(breaker_map(*m)[id])
        } else {
            None::<CircuitBreakerEntry>
        }),
{
    match m.get(&id) {
        Some(e) => Some(*e.value()),
        None => None,
    }
}

/// `DashMap::insert`: the entry under `id` is set, the others kept.
#[verifier::external_body]
fn breakers_insert(m: &mut DashMap<u128, CircuitBreakerEntry>, id: u128, e: CircuitBreakerEntry)
    ensures
        breaker_map(*final(m)) == breaker_map(*old(m)).insert(id, e),
{
    m.insert(id, e);
}

/// `DashMap::remove`: the entry under `id` is taken out and given back.
#[verifier::external_body]
fn breakers_remove(m: &mut DashMap<u128, CircuitBreakerEntry>, id: u128) -> (r: Option<CircuitBreakerEntry>)
    ensures
        r == (if breaker_map(*old(m)).contains_key(id) {
            Some(breaker_map(*old(m))[id])
        } else {
            None::<CircuitBreakerEntry>
        }),
        breaker_map(*final(m)) == breaker_map(*old(m)).remove(id),
{
    m.remove(&id).map(|p| p.1)
}

/// `DashMap::iter`, each entry copied out: every entry once, in an order
/// the map's hashing decides, which is left unsaid. The map is owned by
/// one manager and changed only through `&mut`, so no insert or removal
/// runs while it is walked.
#[verifier::external_body]
fn breakers_entries(m: &DashMap<u128, CircuitBreakerEntry>) -> (v: Vec<(u128, CircuitBreakerEntry)>)
    ensures
        forall|i: int| 0 <= i < v@.len() ==> #[trigger] breaker_map(*m).contains_key(v@[i].0) && breaker_map(*m)[v@[i].0] == v@[i].1,
        forall|id: u128| #[trigger] breaker_map(*m).contains_key(id) ==> exists|i: int| 0 <= i < v@.len() && v@[i].0 == id,
        forall|i: int, j: int| 0 <= i < j < v@.len() ==> #[trigger] v@[i].0 != #[trigger] v@[j].0,
{
    m.iter().map(|r| (*r.key(), *r.value())).collect()
}

/// Per-service circuit breaker manager, keyed by the service id.
pub struct CircuitBreakerManager {
    breakers: DashMap<u128, CircuitBreakerEntry>,
    failure_threshold: u32,
    reset_timeout_secs: u64,
    half_open_max_requests: u32,
}

impl CircuitBreakerManager {
    /// The breakers, by service id.
    pub closed spec fn breakers(&self) -> Map<u128, CircuitBreakerEntry> {
        breaker_map(self.breakers)
    }

    /// Failures that open a closed breaker.
    pub closed spec fn threshold(&self) -> u32 {
        self.failure_threshold
    }

    /// Seconds an open breaker waits before probing.
    pub closed spec fn reset_secs(&self) -> u64 {
        self.reset_timeout_secs
    }

    /// Probes admitted at once while half-open, and successes that close it.
    pub closed spec fn half_max(&self) -> u32 {
        self.half_open_max_requests
    }

    /// The entry for `id`, or a fresh one created at `now`.
    pub open spec fn entry_or_fresh(&self, id: u128, now: u64) -> CircuitBreakerEntry {
        if self.breakers().contains_key(id) {
            self.breakers()[id]
        } else {
            fresh_entry(now)
        }
    }

    /// An empty manager; zero limits are raised to one.
    pub fn new(failure_threshold: u32, reset_timeout_secs: u64, half_open_max_requests: u32) -> (m: Self)
        ensures
            m.breakers() == Map::<u128, CircuitBreakerEntry>::empty(),
            m.threshold() == at_least_one(failure_threshold),
            m.reset_secs() == reset_timeout_secs,
            m.half_max() == at_least_one(half_open_max_requests),
    {
        let m = CircuitBreakerManager {
            breakers: breakers_new(),
            failure_threshold: raise_to_one(failure_threshold),
            reset_timeout_secs,
            half_open_max_requests: raise_to_one(half_open_max_requests),
        };
        assert(m.breakers() =~= Map::<u128, CircuitBreakerEntry>::empty());
        m
    }

    /// Replaces the limits; zero limits are raised to one. Entries are kept.
    pub fn update_config(&mut self, failure_threshold: u32, reset_timeout_secs: u64, half_open_max_requests: u32)
        ensures
            final(self).breakers() == old(self).breakers(),
            final(self).threshold() == at_least_one(failure_threshold),
            final(self).reset_secs() == reset_timeout_secs,
            final(self).half_max() == at_least_one(half_open_max_requests),
    {
        self.failure_threshold = raise_to_one(failure_threshold);
        self.reset_timeout_secs = reset_timeout_secs;
        self.half_open_max_requests = raise_to_one(half_open_max_requests);
    }

    /// The limits in force: (failure threshold, reset timeout, half-open maximum).
    pub fn snapshot_config(&self) -> (r: (u32, u64, u32))
        ensures
            r == (self.threshold(), self.reset_secs(), self.half_max()),
    {
        (self.failure_threshold, self.reset_timeout_secs, self.half_open_max_requests)
    }

    fn take_entry(&mut self, id: u128, now: u64) -> (e: CircuitBreakerEntry)
        ensures
            e == old(self).entry_or_fresh(id, now),
            final(self).breakers() == old(self).breakers().remove(id),
            final(self).threshold() == old(self).threshold(),
            final(self).reset_secs() == old(self).reset_secs(),
            final(self).half_max() == old(self).half_max(),
    {
        match breakers_remove(&mut self.breakers, id) {
            Some(e) => e,
            None => CircuitBreakerEntry {
                state: CircuitState::Closed,
                failure_count: 0,
                success_count_half_open: 0,
                in_flight_probes: 0,
                last_failure_time: None,
                last_state_change: now,
            },
        }
    }

    /// Decides whether a request to `id` may pass at clock reading `now`; an
    /// unknown service gets a fresh closed breaker first.
    pub fn allow_request(&mut self, id: u128, now: u64) -> (r: Result<(), CircuitState>)
        ensures
            ({
                let (e2, res) = gate(old(self).entry_or_fresh(id, now), old(self).reset_secs(), old(self).half_max(), now);
                &&& r == res
                &&& final(self).breakers() == old(self).breakers().insert(id, e2)
            }),
            final(self).threshold() == old(self).threshold(),
            final(self).reset_secs() == old(self).reset_secs(),
            final(self).half_max() == old(self).half_max(),
    {
        let mut e = self.take_entry(id, now);
        let r = gate_entry(&mut e, self.reset_timeout_secs, self.half_open_max_requests, now);
        breakers_insert(&mut self.breakers, id, e);
        proof {
            assert(self.breakers() =~= old(self).breakers().insert(id, e));
        }
        r
    }

    /// Reports a successful request to `id`; unknown services are left alone.
    pub fn record_success(&mut self, id: u128, now: u64)
        ensures
            old(self).breakers().contains_key(id) ==> final(self).breakers() == old(self).breakers().insert(
                id,
                after_success(old(self).breakers()[id], old(self).half_max(), now),
            ),
            !old(self).breakers().contains_key(id) ==> final(self).breakers() == old(self).breakers(),
            final(self).threshold() == old(self).threshold(),
            final(self).reset_secs() == old(self).reset_secs(),
            final(self).half_max() == old(self).half_max(),
    {
        if breakers_get(&self.breakers, id).is_some() {
            let mut e = self.take_entry(id, now);
            succeed_entry(&mut e, self.half_open_max_requests, now);
            breakers_insert(&mut self.breakers, id, e);
            proof {
                assert(self.breakers() =~= old(self).breakers().insert(id, e));
            }
        }
    }

    /// Reports a failed request to `id`; an unknown service gets a fresh
    /// closed breaker first.
    pub fn record_failure(&mut self, id: u128, now: u64)
        ensures
            final(self).breakers() == old(self).breakers().insert(
                id,
                after_failure(old(self).entry_or_fresh(id, now), old(self).threshold(), now),
            ),
            final(self).threshold() == old(self).threshold(),
            final(self).reset_secs() == old(self).reset_secs(),
            final(self).half_max() == old(self).half_max(),
    {
        let mut e = self.take_entry(id, now);
        fail_entry(&mut e, self.failure_threshold, now);
        breakers_insert(&mut self.breakers, id, e);
        proof {
            assert(self.breakers() =~= old(self).breakers().insert(id, e));
        }
    }

    /// The state of the breaker for `id`; `Closed` when there is none.
    pub fn get_state(&self, id: u128) -> (s: CircuitState)
        ensures
            s == (if self.breakers().contains_key(id) {
                self.breakers()[id].state
            } else {
                CircuitState::Closed
            }),
    {
        match breakers_get(&self.breakers, id) {
            Some(e) => e.state,
            None => CircuitState::Closed,
        }
    }

    /// One row per breaker: its state, failure count and seconds since its
    /// last state change.
    pub fn report(&self, now: u64) -> (rows: Vec<BreakerReport>)
        ensures
            rows@.len() == self.breakers().dom().len(),
            forall|i: int| 0 <= i < rows@.len() ==> {
                let row = #[trigger] rows@[i];
                let e = self.breakers()[row.service_id];
                &&& self.breakers().contains_key(row.service_id)
                &&& row.state == e.state
                &&& row.failure_count == e.failure_count
                &&& row.since_secs == elapsed_ms(e.last_state_change, now) / 1000
            },
            forall|id: u128| #[trigger] self.breakers().contains_key(id) ==> exists|i: int|
                0 <= i < rows@.len() && rows@[i].service_id == id,
    {
        let entries = breakers_entries(&self.breakers);
        let n = entries.len();
        let ghost keys = entries@.map_values(|p: (u128, CircuitBreakerEntry)| p.0);
        proof {
            assert forall|a: int, b: int| 0 <= a < keys.len() && 0 <= b < keys.len() && a != b implies keys[a] != keys[b] by {
                if a < b {
                    assert(entries@[a].0 != entries@[b].0);
                } else {
                    assert(entries@[b].0 != entries@[a].0);
                }
            }
            assert(keys.no_duplicates());
            keys.unique_seq_to_set();
            assert forall|id: u128| self.breakers().dom().contains(id) <==> keys.to_set().contains(id) by {
                if self.breakers().contains_key(id) {
                    let j = choose|j: int| 0 <= j < entries@.len() && entries@[j].0 == id;
                    assert(keys[j] == id);
                }
                if keys.to_set().contains(id) {
                    let j = choose|j: int| 0 <= j < keys.len() && keys[j] == id;
                    assert(self.breakers().contains_key(entries@[j].0));
                }
            }
            assert(self.breakers().dom() =~= keys.to_set());
        }
        let mut rows: Vec<BreakerReport> = Vec::new();
        let mut i: usize = 0;
        while i < n
            invariant
                n == entries@.len(),
                i <= n,
                rows@.len() == i,
                forall|j: int| 0 <= j < entries@.len() ==> #[trigger] self.breakers().contains_key(entries@[j].0)
                    && self.breakers()[entries@[j].0] == entries@[j].1,
                forall|j: int| 0 <= j < i ==> #[trigger] rows@[j].service_id == entries@[j].0,
                forall|j: int| 0 <= j < rows@.len() ==> {
                    let row = #[trigger] rows@[j];
                    let e = self.breakers()[row.service_id];
                    &&& self.breakers().contains_key(row.service_id)
                    &&& row.state == e.state
                    &&& row.failure_count == e.failure_count
                    &&& row.since_secs == elapsed_ms(e.last_state_change, now) / 1000
                },
            decreases n - i,
        {
            let (k, e) = entries[i];
            proof {
                assert(self.breakers().contains_key(entries@[i as int].0));
            }
            let since_ms: u64 = if now >= e.last_state_change {
                now - e.last_state_change
            } else {
                0
            };
            rows.push(
                BreakerReport {
                    service_id: k,
                    state: e.state,
                    failure_count: e.failure_count,
                    since_secs: since_ms / 1000,
                },
            );
            i = i + 1;
        }
        proof {
            assert forall|id: u128| #[trigger] self.breakers().contains_key(id) implies exists|i: int|
                0 <= i < rows@.len() && rows@[i].service_id == id by {
                let j = choose|j: int| 0 <= j < entries@.len() && entries@[j].0 == id;
                assert(rows@[j].service_id == id);
            }
        }
        rows
    }
}

/// Fail-fast: an open breaker whose reset timeout has not passed refuses the
/// request and stays as it was.
pub proof fn law_open_refuses_until_timeout(e: CircuitBreakerEntry, reset_secs: u64, half_max: u32, now: u64)
    requires
        e.state == CircuitState::Open,
        !timeout_passed(e, reset_secs, now),
    ensures
        gate(e, reset_secs, half_max, now) == (e, Err::<(), CircuitState>(CircuitState::Open)),
{
}

/// A closed breaker admits every request and is not changed by admission.
pub proof fn law_closed_admits(e: CircuitBreakerEntry, reset_secs: u64, half_max: u32, now: u64)
    requires
        e.state == CircuitState::Closed,
    ensures
        gate(e, reset_secs, half_max, now) == (e, Ok::<(), CircuitState>(())),
{
}

/// `n` consecutive failures applied to an entry.
pub open spec fn failures(e: CircuitBreakerEntry, threshold: u32, now: u64, n: nat) -> CircuitBreakerEntry
    decreases n,
{
    if n == 0 {
        e
    } else {
        after_failure(failures(e, threshold, now, (n - 1) as nat), threshold, now)
    }
}

/// Opening: starting closed with `f` failures counted, the breaker is open after
/// `n` more failures exactly when `f + n` reaches the threshold (raised to one),
/// and its failure count is then `f + n`.
pub proof fn law_failures_open_at_threshold(e: CircuitBreakerEntry, threshold: u32, now: u64, n: nat)
    requires
        e.state == CircuitState::Closed,
        e.failure_count < at_least_one(threshold),
        e.failure_count + n <= u32::MAX,
    ensures
        failures(e, threshold, now, n).failure_count == e.failure_count + n,
        failures(e, threshold, now, n).state == (if e.failure_count + n >= at_least_one(threshold) {
            CircuitState::Open
        } else {
            CircuitState::Closed
        }),
    decreases n,
{
    if n > 0 {
        law_failures_open_at_threshold(e, threshold, now, (n - 1) as nat);
    }
}

/// Recovery: a half-open breaker one success short of the maximum closes on
/// the next success, with its failure count cleared and no probes in flight.
pub proof fn law_half_open_recovers(e: CircuitBreakerEntry, half_max: u32, now: u64)
    requires
        e.state == CircuitState::HalfOpen,
        e.success_count_half_open + 1 >= at_least_one(half_max),
    ensures
        after_success(e, half_max, now).state == CircuitState::Closed,
        after_success(e, half_max, now).failure_count == 0,
        after_success(e, half_max, now).in_flight_probes == 0,
{
}

/// A failed probe reopens a half-open breaker.
pub proof fn law_half_open_failure_reopens(e: CircuitBreakerEntry, threshold: u32, now: u64)
    requires
        e.state == CircuitState::HalfOpen,
    ensures
        after_failure(e, threshold, now).state == CircuitState::Open,
        after_failure(e, threshold, now).in_flight_probes == 0,
        after_failure(e, threshold, now).last_failure_time == Some(now),
{
}

/// Thundering-herd bound: admission, success and failure all keep the number
/// of probes in flight within the half-open maximum, and zero outside the
/// half-open state; a fresh entry starts within it.
pub proof fn law_probe_bound_kept(e: CircuitBreakerEntry, reset_secs: u64, half_max: u32, threshold: u32, now: u64)
    requires
        probes_bounded(e, half_max),
    ensures
        probes_bounded(gate(e, reset_secs, half_max, now).0, half_max),
        probes_bounded(after_success(e, half_max, now), half_max),
        probes_bounded(after_failure(e, threshold, now), half_max),
        probes_bounded(fresh_entry(now), half_max),
{
}

/// A half-open breaker refuses a request once the maximum number of probes is
/// in flight.
pub proof fn law_half_open_refuses_beyond_max(e: CircuitBreakerEntry, reset_secs: u64, half_max: u32, now: u64)
    requires
        e.state == CircuitState::HalfOpen,
        e.in_flight_probes >= at_least_one(half_max),
    ensures
        gate(e, reset_secs, half_max, now) == (e, Err::<(), CircuitState>(CircuitState::HalfOpen)),
{
}

} // verus!
