//! Change detection of watched endpoints: each check compares the SHA-256
//! of the endpoint's body with the one seen before and counts changes. The
//! caller fetches the bodies and posts the change notifications.
use vstd::prelude::*;
use vstd::string::StringSliceAdditionalSpecFns;
use crate::text::{chars_of, string_of, eq};
use crate::crypto::{sha256, sha256_of, hex_encode, hex_seq};

verus! {

/// A watched endpoint.
pub struct CdcWatcher {
    pub id: String,
    /// The monitored URL.
    pub endpoint: String,
    /// Where changes are reported.
    pub webhook_url: String,
    /// Hex SHA-256 of the last body seen; empty before the first check.
    pub last_response_hash: String,
    pub change_count: u64,
    pub enabled: bool,
}

/// What a check needs to know of a watcher.
pub struct CdcCheck {
    pub id: String,
    pub endpoint: String,
    pub webhook_url: String,
    pub last_hash: String,
}

/// The hash a body is known by: hex SHA-256 of its bytes.
pub open spec fn body_hash_spec(body: &str) -> Seq<char> {
    hex_seq(sha256_of(body.spec_bytes()))
}

/// The hash of a fetched body.
pub fn body_hash(body: &str) -> (h: String)
    ensures
        h@ == body_hash_spec(body),
{
    let d = sha256(body.as_bytes());
    hex_encode(d.as_slice())
}

/// A change: there was an earlier hash and the new one differs.
pub open spec fn changed(last: Seq<char>, new: Seq<char>) -> bool {
    last.len() > 0 && new != last
}

/// Whether a check saw a change.
pub fn is_change(last: &str, new: &str) -> (r: bool)
    ensures
        r == changed(last@, new@),
{
    let l = chars_of(last);
    let n = chars_of(new);
    l.len() > 0 && !eq(n.as_slice(), l.as_slice())
}

/// The first watcher with this id, from position `from` on.
pub open spec fn first_id(ws: Seq<CdcWatcher>, id: Seq<char>, from: int) -> Option<int>
    decreases ws.len() - from,
{
    if from < 0 || from >= ws.len() {
        None
    } else if ws[from].id@ == id {
        Some(from)
    } else {
        first_id(ws, id, from + 1)
    }
}

/// A watcher after a check: the new hash, and one more change when it changed.
pub open spec fn checked(w: CdcWatcher, hash: String, change: bool) -> CdcWatcher {
    CdcWatcher {
        last_response_hash: hash,
        change_count: if change {
            if w.change_count == u64::MAX {
                u64::MAX
            } else {
                (w.change_count + 1) as u64
            }
        } else {
            w.change_count
        },
        ..w
    }
}

/// Applies one check result to the first watcher with its id.
pub open spec fn apply_check(ws: Seq<CdcWatcher>, u: (String, String, bool)) -> Seq<CdcWatcher> {
    match first_id(ws, u.0@, 0) {
        Some(i) => ws.update(i, checked(ws[i], u.1, u.2)),
        None => ws,
    }
}

/// Applies the check results in order.
pub open spec fn apply_checks(ws: Seq<CdcWatcher>, us: Seq<(String, String, bool)>) -> Seq<CdcWatcher>
    decreases us.len(),
{
    if us.len() == 0 {
        ws
    } else {
        apply_check(apply_checks(ws, us.drop_last()), us.last())
    }
}

/// The enabled watchers, in order.
pub open spec fn enabled_of(ws: Seq<CdcWatcher>) -> Seq<CdcWatcher> {
    ws.filter(|w: CdcWatcher| w.enabled)
}

/// The watchers of the pipeline.
pub struct CdcWatchers {
    watchers: Vec<CdcWatcher>,
}

fn copy_text(s: &String) -> (r: String)
    ensures
        r@ == s@,
{
    string_of(chars_of(s.as_str()).as_slice())
}

impl CdcWatchers {
    /// The watchers, in the order they were added.
    pub closed spec fn list(&self) -> Seq<CdcWatcher> {
        self.watchers@
    }

    pub fn new() -> (c: Self)
        ensures
            c.list().len() == 0,
    {
        CdcWatchers { watchers: Vec::new() }
    }

    /// Adds an enabled watcher with no hash yet.
    pub fn add_watcher_with_id(&mut self, id: String, endpoint: String, webhook_url: String)
        ensures
            final(self).list() == old(self).list().push(
                CdcWatcher {
                    id,
                    endpoint,
                    webhook_url,
                    last_response_hash: final(self).list().last().last_response_hash,
                    change_count: 0,
                    enabled: true,
                },
            ),
            final(self).list().last().last_response_hash@.len() == 0,
    {
        self.watchers.push(
            CdcWatcher { id, endpoint, webhook_url, last_response_hash: String::new(), change_count: 0, enabled: true },
        );
    }

    /// Adds a watcher under a fresh id and gives the id.
    pub fn add_watcher(&mut self, endpoint: String, webhook_url: String) -> (id: String)
        ensures
            id@.len() == 36,
            final(self).list().len() == old(self).list().len() + 1,
            final(self).list().drop_last() == old(self).list(),
            final(self).list().last().id@ == id@,
            final(self).list().last().endpoint == endpoint,
            final(self).list().last().webhook_url == webhook_url,
            final(self).list().last().enabled,
            final(self).list().last().change_count == 0,
            final(self).list().last().last_response_hash@.len() == 0,
    {
        let id = crate::ids::new_id();
        let copy = copy_text(&id);
        self.add_watcher_with_id(id, endpoint, webhook_url);
        copy
    }

    /// What to check: the enabled watchers, in order.
    pub fn snapshot(&self) -> (r: Vec<CdcCheck>)
        ensures
            r@.len() == enabled_of(self.list()).len(),
            forall|k: int| 0 <= k < r@.len() ==> {
                let w = #[trigger] enabled_of(self.list())[k];
                &&& r@[k].id@ == w.id@
                &&& r@[k].endpoint@ == w.endpoint@
                &&& r@[k].webhook_url@ == w.webhook_url@
                &&& r@[k].last_hash@ == w.last_response_hash@
            },
    {
        let ghost ws = self.watchers@;
        let mut r: Vec<CdcCheck> = Vec::new();
        let mut i: usize = 0;
        while i < self.watchers.len()
            invariant
                i <= ws.len(),
                ws == self.watchers@,
                r@.len() == enabled_of(ws.subrange(0, i as int)).len(),
                forall|k: int| 0 <= k < r@.len() ==> {
                    let w = #[trigger] enabled_of(ws.subrange(0, i as int))[k];
                    &&& r@[k].id@ == w.id@
                    &&& r@[k].endpoint@ == w.endpoint@
                    &&& r@[k].webhook_url@ == w.webhook_url@
                    &&& r@[k].last_hash@ == w.last_response_hash@
                },
            decreases ws.len() - i,
        {
            proof {
                reveal_with_fuel(Seq::filter, 1);
                assert(ws.subrange(0, i + 1).drop_last() =~= ws.subrange(0, i as int));
            }
            let w = &self.watchers[i];
            if w.enabled {
                r.push(
                    CdcCheck {
                        id: copy_text(&w.id),
                        endpoint: copy_text(&w.endpoint),
                        webhook_url: copy_text(&w.webhook_url),
                        last_hash: copy_text(&w.last_response_hash),
                    },
                );
            }
            i = i + 1;
        }
        proof {
            assert(ws.subrange(0, ws.len() as int) =~= ws);
        }
        r
    }

    /// Records check results, each `(id, hash, changed)`, on the first
    /// watcher with that id.
    pub fn merge(&mut self, updates: Vec<(String, String, bool)>)
        ensures
            final(self).list() == apply_checks(old(self).list(), updates@),
    {
        let mut i: usize = 0;
        let n = updates.len();
        let mut rest = updates;
        let ghost us = rest@;
        let mut taken: Vec<(String, String, bool)> = Vec::new();
        while i < n
            invariant
                i <= n,
                n == us.len(),
                rest@ == us.subrange(i as int, n as int),
                self.watchers@ == apply_checks(old(self).list(), us.subrange(0, i as int)),
            decreases n - i,
        {
            proof {
                assert(us.subrange(0, i + 1).drop_last() =~= us.subrange(0, i as int));
                assert(us.subrange(0, i + 1).last() == us[i as int]);
            }
            let u = rest.remove(0);
            assert(rest@ =~= us.subrange(i + 1, n as int));
            let ghost before = self.watchers@;
            let key = chars_of(u.0.as_str());
            let mut j: usize = 0;
            let mut found = false;
            while j < self.watchers.len()
                invariant_except_break
                    !found,
                invariant
                    j <= self.watchers@.len(),
                    self.watchers@ == before,
                    key@ == u.0@,
                    first_id(before, u.0@, 0) == first_id(before, u.0@, j as int),
                ensures
                    j <= self.watchers@.len(),
                    self.watchers@ == before,
                    first_id(before, u.0@, 0) == first_id(before, u.0@, j as int),
                    found ==> j < before.len() && before[j as int].id@ == u.0@,
                    !found ==> j == before.len(),
                decreases self.watchers@.len() - j,
            {
                if eq(key.as_slice(), chars_of(self.watchers[j].id.as_str()).as_slice()) {
                    found = true;
                    break;
                }
                assert(before[j as int].id@ != u.0@);
                j = j + 1;
            }
            if found {
                let mut ws: Vec<CdcWatcher> = Vec::new();
                std::mem::swap(&mut ws, &mut self.watchers);
                let mut w = ws.remove(j);
                let ghost w0 = w;
                w.last_response_hash = u.1;
                if u.2 {
                    w.change_count = w.change_count.saturating_add(1);
                }
                assert(w == checked(w0, us[i as int].1, us[i as int].2));
                ws.insert(j, w);
                self.watchers = ws;
                proof {
                    assert(self.watchers@ =~= before.update(j as int, checked(before[j as int], us[i as int].1, us[i as int].2)));
                }
            }
            i = i + 1;
        }
        proof {
            assert(us.subrange(0, n as int) =~= us);
        }
    }

    /// Number of watchers.
    pub fn count(&self) -> (n: usize)
        ensures
            n == self.list().len(),
    {
        self.watchers.len()
    }

    /// The watcher at position `i`.
    pub fn at(&self, i: usize) -> (w: &CdcWatcher)
        requires
            i < self.list().len(),
        ensures
            *w == self.list()[i as int],
    {
        &self.watchers[i]
    }
}

} // verus!
