//! Blue/green releases. A release starts on blue; while it is active it can
//! be switched back and forth, and an error rate over its threshold rolls it
//! back once: the colour flips and the release is no longer active, so
//! neither switching nor another rollback touches it again.
use vstd::prelude::*;
use crate::store::VecMap;
use crate::text::{chars_of, string_of, eq_str};
use crate::config::text;

verus! {

/// How traffic moves to the new version.
#[derive(Debug, Clone, Copy, PartialEq, Eq, Structural)]
pub enum ReleaseStrategy {
    BlueGreen,
    Canary { percentage: u32 },
}

/// Where a release stands.
#[derive(Debug, Clone, Copy, PartialEq, Eq, Structural)]
pub enum ReleaseStatus {
    Active,
    RolledBack,
    Completed,
}

/// A release of a service.
pub struct Release {
    pub id: String,
    pub service: String,
    pub strategy: ReleaseStrategy,
    pub status: ReleaseStatus,
    pub blue_upstream: String,
    pub green_upstream: String,
    /// `blue` or `green`.
    pub active_color: String,
    /// The error rate (an `f64` fraction) over which the release rolls
    /// back, kept as its IEEE-754 bits; the comparison is made by the caller.
    pub error_threshold_bits: u64,
    pub created_at: u64,
    pub switched_at: Option<u64>,
    pub rollback_count: u64,
}

/// The other colour: `green` after `blue`, `blue` after anything else.
pub open spec fn flipped(c: Seq<char>) -> Seq<char> {
    if c == "blue"@ {
        "green"@
    } else {
        "blue"@
    }
}

fn flip_color(c: &str) -> (r: String)
    ensures
        r@ == flipped(c@),
{
    if eq_str(chars_of(c).as_slice(), "blue") {
        text("green")
    } else {
        text("blue")
    }
}

/// A release after a switch at `now`.
pub open spec fn switched(r: Release, color: String, now: u64) -> Release {
    Release { active_color: color, switched_at: Some(now), ..r }
}

/// The releases, by id.
pub struct ReleaseManager {
    releases: VecMap<Vec<char>, Release>,
}

impl ReleaseManager {
    /// The releases, by id.
    pub closed spec fn releases(&self) -> Map<Seq<char>, Release> {
        self.releases.map()
    }

    pub fn new() -> (m: Self)
        ensures
            m.releases() == Map::<Seq<char>, Release>::empty(),
    {
        ReleaseManager { releases: VecMap::new() }
    }

    /// Adds an active release on blue under `id` at `now`.
    pub fn create_with(&mut self, id: String, service: String, blue: String, green: String, strategy: ReleaseStrategy, error_threshold_bits: u64, now: u64)
        ensures
            final(self).releases().dom() == old(self).releases().dom().insert(id@),
            forall|k: Seq<char>| k != id@ && #[trigger] old(self).releases().contains_key(k) ==> final(self).releases()[k] == old(self).releases()[k],
            ({
                let r = final(self).releases()[id@];
                &&& r.id@ == id@ && r.service == service && r.blue_upstream == blue && r.green_upstream == green
                &&& r.strategy == strategy && r.status == ReleaseStatus::Active && r.active_color@ == "blue"@
                &&& r.error_threshold_bits == error_threshold_bits && r.created_at == now && r.switched_at is None
                &&& r.rollback_count == 0
            }),
    {
        let key = chars_of(id.as_str());
        let r = Release {
            id,
            service,
            strategy,
            status: ReleaseStatus::Active,
            blue_upstream: blue,
            green_upstream: green,
            active_color: text("blue"),
            error_threshold_bits,
            created_at: now,
            switched_at: None,
            rollback_count: 0,
        };
        self.releases.insert(key, r);
    }

    /// Adds a release with a fresh id at the current time and gives the id;
    /// whatever id and reading were drawn, the release is the one
    /// `create_with` adds.
    pub fn create(&mut self, service: String, blue: String, green: String, strategy: ReleaseStrategy, error_threshold_bits: u64) -> (id: String)
        ensures
            id@.len() == 36,
            final(self).releases().dom() == old(self).releases().dom().insert(id@),
            forall|k: Seq<char>| k != id@ && #[trigger] old(self).releases().contains_key(k) ==> final(self).releases()[k] == old(self).releases()[k],
            ({
                let r = final(self).releases()[id@];
                &&& r.id@ == id@ && r.service == service && r.blue_upstream == blue && r.green_upstream == green
                &&& r.strategy == strategy && r.status == ReleaseStatus::Active && r.active_color@ == "blue"@
                &&& r.error_threshold_bits == error_threshold_bits && r.switched_at is None
                &&& r.rollback_count == 0
            }),
    {
        let id = crate::ids::new_id();
        let copy = string_of(chars_of(id.as_str()).as_slice());
        let now = crate::clock::now_secs();
        self.create_with(id, service, blue, green, strategy, error_threshold_bits, now);
        copy
    }

    /// Switches an active release to its other colour at `now` and gives the
    /// new colour; a release that is not active, or unknown, is left alone.
    pub fn switch_at(&mut self, release_id: &str, now: u64) -> (r: Option<String>)
        ensures
            final(self).releases().dom() == old(self).releases().dom(),
            forall|k: Seq<char>| k != release_id@ && #[trigger] old(self).releases().contains_key(k) ==> final(self).releases()[k] == old(self).releases()[k],
            ({
                let present = old(self).releases().contains_key(release_id@);
                let r0 = old(self).releases()[release_id@];
                if present && r0.status == ReleaseStatus::Active {
                    &&& r matches Some(c) && c@ == flipped(r0.active_color@)
                    &&& final(self).releases()[release_id@] == switched(r0, final(self).releases()[release_id@].active_color, now)
                    &&& final(self).releases()[release_id@].active_color@ == flipped(r0.active_color@)
                } else {
                    r is None && final(self).releases() == old(self).releases()
                }
            }),
    {
        let key = chars_of(release_id);
        match self.releases.position(&key) {
            None => {
                assert(self.releases.map() =~= old(self).releases());
                None
            },
            Some(i) => {
                let ghost before = self.releases.map();
                let (k, mut rel) = self.releases.take_at(i);
                if rel.status != ReleaseStatus::Active {
                    self.releases.insert_at(i, k, rel);
                    assert(self.releases.map() =~= before);
                    return None;
                }
                rel.active_color = flip_color(rel.active_color.as_str());
                rel.switched_at = Some(now);
                let out = string_of(chars_of(rel.active_color.as_str()).as_slice());
                self.releases.insert_at(i, k, rel);
                proof {
                    assert(self.releases.map().dom() =~= before.dom());
                }
                Some(out)
            },
        }
    }

    /// `switch_at` at the current time.
    pub fn switch(&mut self, release_id: &str) -> (r: Option<String>)
        ensures
            final(self).releases().dom() == old(self).releases().dom(),
            !(old(self).releases().contains_key(release_id@) && old(self).releases()[release_id@].status == ReleaseStatus::Active)
                ==> r is None && final(self).releases() == old(self).releases(),
            forall|k: Seq<char>| k != release_id@ && #[trigger] old(self).releases().contains_key(k) ==> final(self).releases()[k] == old(self).releases()[k],
            old(self).releases().contains_key(release_id@) && old(self).releases()[release_id@].status == ReleaseStatus::Active ==> {
                let r0 = old(self).releases()[release_id@];
                let r1 = final(self).releases()[release_id@];
                &&& r matches Some(c) && c@ == flipped(r0.active_color@)
                &&& r1.active_color@ == flipped(r0.active_color@)
                &&& exists|now: u64| r1 == #[trigger] switched(r0, r1.active_color, now)
            },
    {
        let now = crate::clock::now_secs();
        let r = self.switch_at(release_id, now);
        proof {
            if old(self).releases().contains_key(release_id@) && old(self).releases()[release_id@].status == ReleaseStatus::Active {
                let r0 = old(self).releases()[release_id@];
                let r1 = self.releases()[release_id@];
                assert(r1 == switched(r0, r1.active_color, now));
            }
        }
        r
    }

    /// The upstream traffic goes to: blue's when the colour is `blue`, else green's.
    pub fn active_upstream(&self, release_id: &str) -> (r: Option<String>)
        ensures
            match r {
                Some(u) => self.releases().contains_key(release_id@) && u@ == (if self.releases()[release_id@].active_color@ == "blue"@ {
                    self.releases()[release_id@].blue_upstream@
                } else {
                    self.releases()[release_id@].green_upstream@
                }),
                None => !self.releases().contains_key(release_id@),
            },
    {
        let key = chars_of(release_id);
        match self.releases.get(&key) {
            None => None,
            Some(r) => {
                if eq_str(chars_of(r.active_color.as_str()).as_slice(), "blue") {
                    Some(string_of(chars_of(r.blue_upstream.as_str()).as_slice()))
                } else {
                    Some(string_of(chars_of(r.green_upstream.as_str()).as_slice()))
                }
            },
        }
    }

    /// Rolls an active release back at `now` when its error rate exceeded the
    /// threshold (`exceeded`, as the caller compared them): the colour flips,
    /// the rollback is counted and the release is no longer active. Tells
    /// whether it rolled back.
    pub fn check_rollback_at(&mut self, release_id: &str, exceeded: bool, now: u64) -> (rolled: bool)
        ensures
            final(self).releases().dom() == old(self).releases().dom(),
            forall|k: Seq<char>| k != release_id@ && #[trigger] old(self).releases().contains_key(k) ==> final(self).releases()[k] == old(self).releases()[k],
            rolled == (old(self).releases().contains_key(release_id@) && old(self).releases()[release_id@].status == ReleaseStatus::Active && exceeded),
            rolled ==> ({
                let r0 = old(self).releases()[release_id@];
                let r1 = final(self).releases()[release_id@];
                &&& r1.active_color@ == flipped(r0.active_color@)
                &&& r1 == Release {
                    active_color: r1.active_color,
                    rollback_count: if r0.rollback_count == u64::MAX { u64::MAX } else { (r0.rollback_count + 1) as u64 },
                    status: ReleaseStatus::RolledBack,
                    switched_at: Some(now),
                    ..r0
                }
            }),
            !rolled ==> final(self).releases() == old(self).releases(),
    {
        let key = chars_of(release_id);
        match self.releases.position(&key) {
            None => {
                assert(self.releases.map() =~= old(self).releases());
                false
            },
            Some(i) => {
                let ghost before = self.releases.map();
                let (k, mut rel) = self.releases.take_at(i);
                if rel.status != ReleaseStatus::Active || !exceeded {
                    self.releases.insert_at(i, k, rel);
                    assert(self.releases.map() =~= before);
                    return false;
                }
                rel.active_color = flip_color(rel.active_color.as_str());
                rel.rollback_count = rel.rollback_count.saturating_add(1);
                rel.status = ReleaseStatus::RolledBack;
                rel.switched_at = Some(now);
                self.releases.insert_at(i, k, rel);
                proof {
                    assert(self.releases.map().dom() =~= before.dom());
                }
                true
            },
        }
    }

    /// `check_rollback_at` at the current time.
    pub fn check_rollback(&mut self, release_id: &str, exceeded: bool) -> (rolled: bool)
        ensures
            rolled == (old(self).releases().contains_key(release_id@) && old(self).releases()[release_id@].status == ReleaseStatus::Active && exceeded),
            !rolled ==> final(self).releases() == old(self).releases(),
            forall|k: Seq<char>| k != release_id@ && #[trigger] old(self).releases().contains_key(k) ==> final(self).releases()[k] == old(self).releases()[k],
            rolled ==> ({
                let r0 = old(self).releases()[release_id@];
                let r1 = final(self).releases()[release_id@];
                &&& final(self).releases().dom() == old(self).releases().dom()
                &&& r1.active_color@ == flipped(r0.active_color@)
                &&& r1.status == ReleaseStatus::RolledBack
                &&& r1.switched_at is Some
                &&& r1.rollback_count == if r0.rollback_count == u64::MAX { u64::MAX } else { (r0.rollback_count + 1) as u64 }
                &&& r1 == Release { active_color: r1.active_color, rollback_count: r1.rollback_count, status: r1.status, switched_at: r1.switched_at, ..r0 }
            }),
    {
        let now = crate::clock::now_secs();
        self.check_rollback_at(release_id, exceeded, now)
    }

    /// Number of releases.
    pub fn count(&self) -> (n: usize)
        ensures
            n == self.releases().len(),
    {
        let n = self.releases.len();
        proof {
            crate::store::lemma_dom_len(self.releases.keys(), self.releases.map());
        }
        n
    }
}

/// Switching twice returns to the colour a release started from.
pub proof fn law_switch_twice_restores(c: Seq<char>)
    requires
        c == "blue"@ || c == "green"@,
    ensures
        flipped(flipped(c)) == c,
{
    reveal_strlit("blue");
    reveal_strlit("green");
}

} // verus!
