//! Webhook subscriptions to platform events, signed deliveries and their
//! bookkeeping. Each target URL is checked by the address guard and the
//! deliveries are made by the caller.
use vstd::prelude::*;
use vstd::string::StringSliceAdditionalSpecFns;
use crate::store::VecMap;
use crate::text::{chars_of, string_of, concat, eq_str};
use crate::crypto::{hmac_sha256, hmac_sha256_of, hex_encode, hex_seq};
use crate::fmt::{decimal, decimal_text};
use crate::gateway::interceptors::opt_text;

verus! {

/// A webhook subscription.
pub struct WebhookConfig {
    pub id: String,
    pub name: String,
    pub url: String,
    /// Event names, or `*` for every event.
    pub events: Vec<String>,
    pub enabled: bool,
    pub secret: Option<String>,
    pub delivery_count: u64,
    pub failure_count: u64,
}

/// What a delivery needs of a subscription.
pub struct WebhookTarget {
    pub id: String,
    pub url: String,
    pub secret: Option<String>,
    pub name: String,
}

/// A subscription as listed: everything but the secret.
pub struct WebhookSummary {
    pub id: String,
    pub name: String,
    pub url: String,
    pub events: Vec<String>,
    pub enabled: bool,
    pub has_secret: bool,
    pub delivery_count: u64,
    pub failure_count: u64,
}

/// Whether a subscription wants an event: it is enabled and lists the
/// event or `*`.
pub open spec fn wants(w: WebhookConfig, event: Seq<char>) -> bool {
    w.enabled && exists|i: int| 0 <= i < w.events@.len() && ((#[trigger] w.events@[i])@ == event || w.events@[i]@ == "*"@)
}

/// The bytes signed for a delivery: the timestamp, a dot, and the body.
pub open spec fn signed_text(timestamp: u64, body: Seq<char>) -> Seq<char> {
    decimal(timestamp as nat) + "."@ + body
}

/// The signature header of a delivery: `sha256=` and the hex HMAC-SHA256
/// of the signed text under the secret.
pub open spec fn signature_of(secret: &str, timestamp: u64, body: &str) -> Seq<char> {
    "sha256="@ + hex_seq(hmac_sha256_of(secret.spec_bytes(), vstd::utf8::encode_utf8(signed_text(timestamp, body@))))
}

/// The signature of a delivery body sent at `timestamp` (Unix seconds).
pub fn sign_delivery(secret: &str, timestamp: u64, body: &str) -> (s: String)
    ensures
        s@ == signature_of(secret, timestamp, body),
{
    let t = decimal_text(timestamp);
    let a = concat(t.as_slice(), chars_of(".").as_slice());
    let b = concat(a.as_slice(), chars_of(body).as_slice());
    let signed = string_of(b.as_slice());
    let tag = hmac_sha256(secret.as_bytes(), signed.as_str().as_bytes());
    let hex = hex_encode(tag.as_slice());
    let c = concat(chars_of("sha256=").as_slice(), chars_of(hex.as_str()).as_slice());
    string_of(c.as_slice())
}

fn copy_text(s: &String) -> (r: String)
    ensures
        r@ == s@,
{
    string_of(chars_of(s.as_str()).as_slice())
}

/// Saturating increment.
pub open spec fn bump(x: u64) -> u64 {
    if x == u64::MAX {
        u64::MAX
    } else {
        (x + 1) as u64
    }
}

/// The subscriptions, by id.
pub struct WebhookRegistry {
    webhooks: VecMap<Vec<char>, WebhookConfig>,
}

impl WebhookRegistry {
    /// The subscriptions, by id.
    pub closed spec fn hooks(&self) -> Map<Seq<char>, WebhookConfig> {
        self.webhooks.map()
    }

    pub fn new() -> (r: Self)
        ensures
            r.hooks() == Map::<Seq<char>, WebhookConfig>::empty(),
    {
        WebhookRegistry { webhooks: VecMap::new() }
    }

    /// Adds an enabled subscription with no deliveries yet under `id`; its
    /// URL has passed the address guard.
    pub fn register_with_id(&mut self, id: String, name: String, url: String, events: Vec<String>, secret: Option<String>)
        ensures
            final(self).hooks().dom() == old(self).hooks().dom().insert(id@),
            forall|k: Seq<char>| k != id@ && #[trigger] old(self).hooks().contains_key(k) ==> final(self).hooks()[k] == old(self).hooks()[k],
            ({
                let w = final(self).hooks()[id@];
                &&& w.id@ == id@ && w.name == name && w.url == url && w.events == events && w.secret == secret
                &&& w.enabled && w.delivery_count == 0 && w.failure_count == 0
            }),
    {
        let key = chars_of(id.as_str());
        let w = WebhookConfig { id, name, url, events, enabled: true, secret, delivery_count: 0, failure_count: 0 };
        self.webhooks.insert(key, w);
    }

    /// Adds a subscription under a fresh id and gives the id; whatever id was
    /// drawn, the subscription stored under it is the one `register_with_id`
    /// stores.
    pub fn register(&mut self, name: String, url: String, events: Vec<String>, secret: Option<String>) -> (id: String)
        ensures
            id@.len() == 36,
            final(self).hooks().dom() == old(self).hooks().dom().insert(id@),
            forall|k: Seq<char>| k != id@ && #[trigger] old(self).hooks().contains_key(k) ==> final(self).hooks()[k] == old(self).hooks()[k],
            ({
                let w = final(self).hooks()[id@];
                &&& w.id@ == id@ && w.name == name && w.url == url && w.events == events && w.secret == secret
                &&& w.enabled && w.delivery_count == 0 && w.failure_count == 0
            }),
    {
        let id = crate::ids::new_id();
        let copy = copy_text(&id);
        self.register_with_id(id, name, url, events, secret);
        copy
    }

    /// The subscriptions that want an event (listing it or `*`), each once.
    pub fn targets(&self, event_type: &str) -> (r: Vec<WebhookTarget>)
        ensures
            forall|k: int| 0 <= k < r@.len() ==> {
                let t = #[trigger] r@[k];
                &&& self.hooks().contains_key(t.id@)
                &&& wants(self.hooks()[t.id@], event_type@)
                &&& t.url@ == self.hooks()[t.id@].url@
                &&& t.name@ == self.hooks()[t.id@].name@
                &&& opt_text(t.secret) == opt_text(self.hooks()[t.id@].secret)
            },
            forall|id: Seq<char>| #[trigger] self.hooks().contains_key(id) && wants(self.hooks()[id], event_type@) ==> exists|k: int|
                0 <= k < r@.len() && r@[k].id@ == id,
            forall|a: int, b: int| 0 <= a < b < r@.len() ==> #[trigger] r@[a].id@ != #[trigger] r@[b].id@,
    {
        let n = self.webhooks.len();
        let ghost keys = self.webhooks.keys();
        let mut r: Vec<WebhookTarget> = Vec::new();
        let ev = chars_of(event_type);
        let mut i: usize = 0;
        while i < n
            invariant
                i <= n,
                n == keys.len(),
                keys == self.webhooks.keys(),
                ev@ == event_type@,
                forall|k: Seq<char>| self.webhooks.map().contains_key(k) <==> keys.contains(k),
                forall|k: int| 0 <= k < r@.len() ==> {
                    let t = #[trigger] r@[k];
                    &&& self.hooks().contains_key(t.id@)
                    &&& wants(self.hooks()[t.id@], event_type@)
                    &&& t.url@ == self.hooks()[t.id@].url@
                    &&& t.name@ == self.hooks()[t.id@].name@
                    &&& opt_text(t.secret) == opt_text(self.hooks()[t.id@].secret)
                },
                forall|p: int| 0 <= p < i && wants(self.hooks()[#[trigger] keys[p]], event_type@) ==> exists|k: int|
                    0 <= k < r@.len() && r@[k].id@ == keys[p],
                keys.no_duplicates(),
                forall|k: int| 0 <= k < r@.len() ==> keys.subrange(0, i as int).contains(#[trigger] r@[k].id@),
                forall|a: int, b: int| 0 <= a < b < r@.len() ==> #[trigger] r@[a].id@ != #[trigger] r@[b].id@,
            decreases n - i,
        {
            let (key, w) = self.webhooks.entry_at(i);
            let mut want = false;
            if w.enabled {
                let mut j: usize = 0;
                while j < w.events.len()
                    invariant
                        j <= w.events@.len(),
                        ev@ == event_type@,
                        want == exists|q: int| 0 <= q < j && ((#[trigger] w.events@[q])@ == event_type@ || w.events@[q]@ == "*"@),
                    decreases w.events@.len() - j,
                {
                    let e = chars_of(w.events[j].as_str());
                    if crate::text::eq(e.as_slice(), ev.as_slice()) || eq_str(e.as_slice(), "*") {
                        want = true;
                    }
                    j = j + 1;
                }
            }
            let ghost r0 = r@;
            if want {
                r.push(WebhookTarget { id: string_of(key.as_slice()), url: copy_text(&w.url), secret: match &w.secret {
                    Some(s) => Some(copy_text(s)),
                    None => None,
                }, name: copy_text(&w.name) });
                proof {
                    assert(r@[r@.len() - 1].id@ == keys[i as int]);
                    assert forall|k: int| 0 <= k < r0.len() implies r0[k].id@ != keys[i as int] by {
                        let p = choose|p: int| 0 <= p < i && keys.subrange(0, i as int)[p] == r0[k].id@;
                        assert(keys[p] == r0[k].id@);
                    }
                }
            }
            proof {
                assert forall|k: int| 0 <= k < r@.len() implies keys.subrange(0, i + 1).contains(#[trigger] r@[k].id@) by {
                    if k < r0.len() {
                        assert(r@[k] == r0[k]);
                        let p = choose|p: int| 0 <= p < i && keys.subrange(0, i as int)[p] == r0[k].id@;
                        assert(keys.subrange(0, i + 1)[p] == r0[k].id@);
                    } else {
                        assert(keys.subrange(0, i + 1)[i as int] == keys[i as int]);
                    }
                }
            }
            proof {
                assert forall|p: int| 0 <= p < i + 1 && wants(self.hooks()[#[trigger] keys[p]], event_type@) implies exists|k: int|
                    0 <= k < r@.len() && r@[k].id@ == keys[p] by {
                    if p < i {
                        let k = choose|k: int| 0 <= k < r0.len() && r0[k].id@ == keys[p];
                        assert(r@[k] == r0[k]);
                    } else {
                        assert(r@[r@.len() - 1].id@ == keys[i as int]);
                    }
                }
            }
            i = i + 1;
        }
        proof {
            assert forall|id: Seq<char>| #[trigger] self.hooks().contains_key(id) && wants(self.hooks()[id], event_type@) implies exists|k: int|
                0 <= k < r@.len() && r@[k].id@ == id by {
                assert(keys.contains(id));
                let p = choose|p: int| 0 <= p < keys.len() && keys[p] == id;
                assert(wants(self.hooks()[keys[p]], event_type@));
            }
        }
        r
    }

    /// Records the outcome of a delivery to subscription `id`: a 2xx answer
    /// counts a delivery; a refused URL, a failed request or another status
    /// counts a failure. Unknown ids are ignored.
    pub fn record_delivery(&mut self, id: &str, delivered: bool)
        ensures
            final(self).hooks().dom() == old(self).hooks().dom(),
            forall|k: Seq<char>| k != id@ && #[trigger] old(self).hooks().contains_key(k) ==> final(self).hooks()[k] == old(self).hooks()[k],
            old(self).hooks().contains_key(id@) ==> ({
                let w0 = old(self).hooks()[id@];
                let w1 = final(self).hooks()[id@];
                &&& delivered ==> w1 == WebhookConfig { delivery_count: bump(w0.delivery_count), ..w0 }
                &&& !delivered ==> w1 == WebhookConfig { failure_count: bump(w0.failure_count), ..w0 }
            }),
    {
        let key = chars_of(id);
        match self.webhooks.position(&key) {
            None => {
                proof {
                    assert(self.webhooks.map().dom() =~= old(self).hooks().dom());
                }
            },
            Some(i) => {
                let ghost before = self.webhooks.map();
                let ghost keys = self.webhooks.keys();
                let (k, mut w) = self.webhooks.take_at(i);
                if delivered {
                    w.delivery_count = w.delivery_count.saturating_add(1);
                } else {
                    w.failure_count = w.failure_count.saturating_add(1);
                }
                self.webhooks.insert_at(i, k, w);
                proof {
                    assert(self.webhooks.map().dom() =~= before.dom());
                }
            },
        }
    }

    /// Removes a subscription; tells whether it existed.
    pub fn remove(&mut self, id: &str) -> (r: bool)
        ensures
            r == old(self).hooks().contains_key(id@),
            final(self).hooks() == old(self).hooks().remove(id@),
    {
        let key = chars_of(id);
        self.webhooks.remove(&key).is_some()
    }

    pub fn count(&self) -> (n: usize)
        ensures
            n == self.hooks().len(),
    {
        let n = self.webhooks.len();
        proof {
            crate::store::lemma_dom_len(self.webhooks.keys(), self.webhooks.map());
        }
        n
    }

    /// The subscriptions without their secrets.
    pub fn list(&self) -> (r: Vec<WebhookSummary>)
        ensures
            r@.len() == self.hooks().len(),
            forall|k: int| 0 <= k < r@.len() ==> {
                let s = #[trigger] r@[k];
                &&& self.hooks().contains_key(s.id@)
                &&& s.has_secret == self.hooks()[s.id@].secret is Some
                &&& s.delivery_count == self.hooks()[s.id@].delivery_count
                &&& s.failure_count == self.hooks()[s.id@].failure_count
                &&& s.enabled == self.hooks()[s.id@].enabled
            },
    {
        let n = self.webhooks.len();
        proof {
            crate::store::lemma_dom_len(self.webhooks.keys(), self.webhooks.map());
        }
        let mut r: Vec<WebhookSummary> = Vec::new();
        let mut i: usize = 0;
        while i < n
            invariant
                i <= n,
                n == self.webhooks.keys().len(),
                r@.len() == i,
                forall|k: int| 0 <= k < r@.len() ==> {
                    let s = #[trigger] r@[k];
                    &&& self.hooks().contains_key(s.id@)
                    &&& s.has_secret == self.hooks()[s.id@].secret is Some
                    &&& s.delivery_count == self.hooks()[s.id@].delivery_count
                    &&& s.failure_count == self.hooks()[s.id@].failure_count
                    &&& s.enabled == self.hooks()[s.id@].enabled
                },
            decreases n - i,
        {
            let (key, w) = self.webhooks.entry_at(i);
            let mut events: Vec<String> = Vec::new();
            let mut j: usize = 0;
            while j < w.events.len()
                decreases w.events@.len() - j,
            {
                events.push(copy_text(&w.events[j]));
                j = j + 1;
            }
            r.push(WebhookSummary {
                id: string_of(key.as_slice()),
                name: copy_text(&w.name),
                url: copy_text(&w.url),
                events,
                enabled: w.enabled,
                has_secret: w.secret.is_some(),
                delivery_count: w.delivery_count,
                failure_count: w.failure_count,
            });
            i = i + 1;
        }
        r
    }
}

} // verus!
