//! Login sessions. Tokens are kept only as their SHA-256 hex digests; the
//! plaintext token is handed back to the caller and never stored. A user
//! keeps at most a fixed number of live sessions: creating one more retires
//! the oldest. Time is a clock reading in seconds handed in by the caller.
use vstd::prelude::*;
use vstd::string::StringSliceAdditionalSpecFns;
use crate::store::VecMap;
use dashmap::DashMap;
use crate::text::{chars_of, string_of, contains_str, contains_seq, lowercased, to_lowercase};
use crate::crypto::{sha256, sha256_of, hex_encode, hex_seq};
use crate::config::text;

verus! {

/// A session.
pub struct Session {
    /// The plaintext token in what callers get; its digest in what is stored.
    pub token: String,
    pub user_id: String,
    pub created_at: u64,
    pub expires_at: u64,
    pub last_activity: u64,
    pub ip: String,
    pub user_agent: String,
    pub device_name: String,
    pub active: bool,
}

/// The stored key of a token: hex SHA-256 of its bytes.
pub open spec fn token_key(token: Seq<char>) -> Seq<char> {
    hex_seq(sha256_of(vstd::utf8::encode_utf8(token)))
}

/// The digest a token is stored under.
pub fn hash_token(token: &str) -> (h: String)
    ensures
        h@ == token_key(token@),
{
    let d = sha256(token.as_bytes());
    hex_encode(d.as_slice())
}

/// The device class a lower-cased user agent names.
pub open spec fn device_of(l: Seq<char>) -> Seq<char> {
    if contains_seq(l, "mobile"@) || contains_seq(l, "android"@) || contains_seq(l, "iphone"@) {
        "Mobile"@
    } else if contains_seq(l, "tablet"@) || contains_seq(l, "ipad"@) {
        "Tablet"@
    } else if contains_seq(l, "curl"@) || contains_seq(l, "httpie"@) || contains_seq(l, "postman"@) {
        "CLI/API Client"@
    } else {
        "Desktop"@
    }
}

/// The device class of a user agent, compared after lower-casing.
pub fn detect_device(ua: &str) -> (d: String)
    ensures
        d@ == device_of(lowercased(ua@)),
{
    let low = to_lowercase(ua);
    let l = chars_of(low.as_str());
    let s = l.as_slice();
    if contains_str(s, "mobile") || contains_str(s, "android") || contains_str(s, "iphone") {
        text("Mobile")
    } else if contains_str(s, "tablet") || contains_str(s, "ipad") {
        text("Tablet")
    } else if contains_str(s, "curl") || contains_str(s, "httpie") || contains_str(s, "postman") {
        text("CLI/API Client")
    } else {
        text("Desktop")
    }
}

/// A stored session that is live at `now`.
pub open spec fn live(m: Map<Seq<char>, Session>, now: u64, t: Seq<char>) -> bool {
    m.contains_key(t) && m[t].active && now <= m[t].expires_at
}

/// The keys of a list that are live at `now`, in order.
pub open spec fn keep_live(l: Seq<Seq<char>>, m: Map<Seq<char>, Session>, now: u64) -> Seq<Seq<char>>
    decreases l.len(),
{
    if l.len() == 0 {
        l
    } else {
        let rest = keep_live(l.drop_last(), m, now);
        if live(m, now, l.last()) {
            rest.push(l.last())
        } else {
            rest
        }
    }
}

/// The sessions with those in `s` made inactive.
pub open spec fn deactivate(m: Map<Seq<char>, Session>, s: Seq<Seq<char>>) -> Map<Seq<char>, Session> {
    Map::new(
        |k: Seq<char>| m.contains_key(k),
        |k: Seq<char>| if s.contains(k) {
            Session { active: false, ..m[k] }
        } else {
            m[k]
        },
    )
}

/// How many of a user's live sessions are over the limit.
pub open spec fn excess(len: nat, max: nat) -> nat {
    if len > max {
        (len - max) as nat
    } else {
        0
    }
}

/// Sessions by token digest, and each user's digests, oldest first.
pub struct SessionManager {
    sessions: VecMap<Vec<char>, Session>,
    user_sessions: DashMap<String, Vec<String>>,
    max_sessions_per_user: usize,
}

fn string_key(s: &String) -> (k: Vec<char>)
    ensures
        k@ == s@,
{
    chars_of(s.as_str())
}

proof fn lemma_filter_no_dup(s: Seq<Seq<char>>, p: spec_fn(Seq<char>) -> bool)
    requires
        s.no_duplicates(),
    ensures
        s.filter(p).no_duplicates(),
    decreases s.len(),
{
    reveal_with_fuel(Seq::filter, 1);
    if s.len() > 0 {
        lemma_filter_no_dup(s.drop_last(), p);
        broadcast use vstd::seq_lib::group_filter_ensures;
        if p(s.last()) {
            assert forall|i: int| 0 <= i < s.drop_last().filter(p).len() implies s.drop_last().filter(p)[i] != s.last() by {
                let x = s.drop_last().filter(p)[i];
                assert(s.drop_last().filter(p).contains(x));
                s.drop_last().lemma_filter_contains_rev(p, x);
                let j = choose|j: int| 0 <= j < s.drop_last().len() && s.drop_last()[j] == x;
                assert(s[j] != s[s.len() - 1]);
            }
        }
    }
}

/// A user's list of digests as texts.
pub open spec fn digests(v: Vec<String>) -> Seq<Seq<char>> {
    v@.map_values(|s: String| s@)
}

/// The entries of a map of session lists: each user's token digests, by the
/// user id's text.
pub uninterp spec fn list_map(m: DashMap<String, Vec<String>>) -> Map<Seq<char>, Seq<Seq<char>>>;

/// `DashMap::new`: no lists.
#[verifier::external_body]
fn lists_new() -> (r: DashMap<String, Vec<String>>)
    ensures
        list_map(r).dom() == Set::<Seq<char>>::empty(),
{
    DashMap::new()
}

/// `DashMap::remove` by the user id's text (`String` borrows as `str`, and
/// two strings are the same key exactly when their texts are equal): the
/// user's list is taken out and given back, the others kept.
#[verifier::external_body]
fn lists_remove(m: &mut DashMap<String, Vec<String>>, user: &str) -> (r: Option<Vec<String>>)
    ensures
        r is Some == list_map(*old(m)).contains_key(user@),
        r matches Some(v) ==> digests(v) == list_map(*old(m))[user@],
        list_map(*final(m)) == list_map(*old(m)).remove(user@),
{
    m.remove(user).map(|p| p.1)
}

/// `DashMap::insert`: the list of `user` is set, the others kept.
#[verifier::external_body]
fn lists_insert(m: &mut DashMap<String, Vec<String>>, user: String, list: Vec<String>)
    ensures
        list_map(*final(m)) == list_map(*old(m)).insert(user@, digests(list)),
{
    m.insert(user, list);
}

/// The user ids of the map (`DashMap::iter`, each key cloned): every key
/// once, in an order the map's hashing decides, which is left unsaid. The
/// map is owned by one manager and changed only through `&mut`, so no
/// insert or removal runs while it is walked.
#[verifier::external_body]
fn lists_keys(m: &DashMap<String, Vec<String>>) -> (v: Vec<String>)
    ensures
        forall|i: int| 0 <= i < v@.len() ==> list_map(*m).contains_key(#[trigger] v@[i]@),
        forall|u: Seq<char>| #[trigger] list_map(*m).contains_key(u) ==> exists|i: int| 0 <= i < v@.len() && v@[i]@ == u,
        forall|i: int, j: int| 0 <= i < j < v@.len() ==> #[trigger] v@[i]@ != #[trigger] v@[j]@,
{
    m.iter().map(|r| r.key().clone()).collect()
}

/// What opening a session does: the session is stored under the token's
/// digest, the user's list gets the digest and loses the ones no longer
/// live, and when the list is longer than the limit its oldest entries are
/// made inactive and dropped; `s` is the session with the plaintext token.
pub open spec fn opened(
    before: SessionManager,
    after: SessionManager,
    user_id: Seq<char>,
    token: Seq<char>,
    ip: Seq<char>,
    user_agent: Seq<char>,
    ttl_secs: u64,
    now: u64,
    s: Session,
) -> bool {
    let h = token_key(token);
    let st = Session { active: true, ..after.sessions()[h] };
    let m1 = before.sessions().insert(h, st);
    let l1 = keep_live(before.user_list(user_id).push(h), m1, now);
    let ex = excess(l1.len(), before.max_sessions());
    &&& after.sessions().contains_key(h)
    &&& st.token@ == h && st.user_id@ == user_id && st.created_at == now
    &&& st.expires_at == now + ttl_secs && st.last_activity == now && st.ip@ == ip
    &&& st.user_agent@ == user_agent && st.device_name@ == device_of(lowercased(user_agent))
    &&& after.sessions() == deactivate(m1, l1.take(ex as int))
    &&& after.index() == before.index().insert(user_id, l1.skip(ex as int))
    &&& s.token@ == token && s.user_id@ == user_id && s.created_at == now && s.expires_at == now + ttl_secs
    &&& s.last_activity == now && s.ip@ == ip && s.user_agent@ == user_agent && s.active
    &&& s.device_name@ == st.device_name@
}

impl SessionManager {
    /// The stored sessions, by token digest.
    pub closed spec fn sessions(&self) -> Map<Seq<char>, Session> {
        self.sessions.map()
    }

    /// Each user's session digests, oldest first.
    pub closed spec fn index(&self) -> Map<Seq<char>, Seq<Seq<char>>> {
        list_map(self.user_sessions)
    }

    /// The most live sessions a user keeps.
    pub closed spec fn max_sessions(&self) -> nat {
        self.max_sessions_per_user as nat
    }

    /// A user's digests (none when the user has no entry).
    pub open spec fn user_list(&self, user: Seq<char>) -> Seq<Seq<char>> {
        if self.index().contains_key(user) {
            self.index()[user]
        } else {
            Seq::empty()
        }
    }

    /// No sessions; a limit of at least one.
    pub fn new(max_sessions: usize) -> (m: Self)
        ensures
            m.sessions() == Map::<Seq<char>, Session>::empty(),
            m.index() == Map::<Seq<char>, Seq<Seq<char>>>::empty(),
            m.max_sessions() == if max_sessions < 1 { 1 } else { max_sessions as nat },
    {
        let m = SessionManager {
            sessions: VecMap::new(),
            user_sessions: lists_new(),
            max_sessions_per_user: if max_sessions < 1 { 1 } else { max_sessions },
        };
        assert(m.index() =~= Map::<Seq<char>, Seq<Seq<char>>>::empty());
        m
    }

    fn is_live(&self, t: &Vec<char>, now: u64) -> (r: bool)
        ensures
            r == live(self.sessions(), now, t@),
    {
        match self.sessions.get(t) {
            Some(s) => s.active && now <= s.expires_at,
            None => false,
        }
    }

    /// Opens a session for `user_id` at `now` lasting `ttl_secs`, stored
    /// under the token's digest. The user's list gets the new digest, loses
    /// the digests that are no longer live, and, when it is longer than the
    /// limit, its oldest entries are made inactive and dropped. The session
    /// is returned with the plaintext token.
    pub fn create_at(&mut self, user_id: &str, token: &str, ip: &str, user_agent: &str, ttl_secs: u64, now: u64) -> (s: Session)
        requires
            now + ttl_secs <= u64::MAX,
        ensures
            final(self).max_sessions() == old(self).max_sessions(),
            opened(*old(self), *final(self), user_id@, token@, ip@, user_agent@, ttl_secs, now, s),
    {
        let h = hash_token(token);
        let hkey = chars_of(h.as_str());
        let device = detect_device(user_agent);
        let stored = Session {
            token: string_of(hkey.as_slice()),
            user_id: text(user_id),
            created_at: now,
            expires_at: now + ttl_secs,
            last_activity: now,
            ip: text(ip),
            user_agent: text(user_agent),
            device_name: string_of(chars_of(device.as_str()).as_slice()),
            active: true,
        };
        let ghost st = stored;
        self.sessions.insert(string_key(&h), stored);
        let ghost m1 = self.sessions.map();
        let ukey = chars_of(user_id);
        let ghost l0 = old(self).user_list(user_id@);
        let mut list: Vec<String> = match lists_remove(&mut self.user_sessions, user_id) {
            Some(v) => v,
            None => Vec::new(),
        };
        let ghost um0 = self.index();
        proof {
            assert(digests(list) == l0);
        }
        list.push(h);
        let ghost lp = digests(list);
        proof {
            assert(lp =~= l0.push(token_key(token@)));
        }
        let mut kept: Vec<String> = Vec::new();
        let mut i: usize = 0;
        while i < list.len()
            invariant
                i <= list@.len(),
                lp == digests(list),
                m1 == self.sessions.map(),
                self.index() == um0,
                self.max_sessions_per_user == old(self).max_sessions_per_user,
                digests(kept) == keep_live(lp.subrange(0, i as int), m1, now),
            decreases list@.len() - i,
        {
            proof {
                assert(lp.subrange(0, i + 1).drop_last() =~= lp.subrange(0, i as int));
                assert(lp[i as int] == list@[i as int]@);
            }
            let t = chars_of(list[i].as_str());
            if self.is_live(&t, now) {
                kept.push(string_of(t.as_slice()));
                assert(digests(kept) =~= keep_live(lp.subrange(0, i as int), m1, now).push(lp[i as int]));
            }
            i = i + 1;
        }
        proof {
            assert(lp.subrange(0, lp.len() as int) =~= lp);
        }
        let ghost l1 = digests(kept);
        let ex: usize = if kept.len() > self.max_sessions_per_user {
            kept.len() - self.max_sessions_per_user
        } else {
            0
        };
        let mut j: usize = 0;
        proof {
            assert(deactivate(m1, l1.take(0)) =~= m1);
        }
        while j < ex
            invariant
                j <= ex <= kept@.len(),
                l1 == digests(kept),
                self.index() == um0,
                self.max_sessions_per_user == old(self).max_sessions_per_user,
                self.sessions.map() == deactivate(m1, l1.take(j as int)),
            decreases ex - j,
        {
            let t = chars_of(kept[j].as_str());
            assert(t@ == l1[j as int]);
            let ghost before = self.sessions.map();
            match self.sessions.position(&t) {
                None => {
                    proof {
                        assert(deactivate(m1, l1.take(j + 1)) =~= before);
                    }
                },
                Some(p) => {
                    let (k, mut sess) = self.sessions.take_at(p);
                    sess.active = false;
                    self.sessions.insert_at(p, k, sess);
                    proof {
                        let a = l1.take(j + 1);
                        let b = l1.take(j as int);
                        assert(a =~= b.push(t@));
                        assert forall|x: Seq<char>| #[trigger] a.contains(x) <==> (b.contains(x) || x == t@) by {
                            if a.contains(x) {
                                let q = choose|q: int| 0 <= q < a.len() && #[trigger] a[q] == x;
                                if q < j {
                                    assert(b[q] == x);
                                }
                            }
                            if b.contains(x) {
                                let q = choose|q: int| 0 <= q < b.len() && #[trigger] b[q] == x;
                                assert(a[q] == x);
                            }
                            if x == t@ {
                                assert(a[j as int] == x);
                            }
                        }
                        assert(self.sessions.map() =~= deactivate(m1, a));
                    }
                },
            }
            j = j + 1;
        }
        let mut rest: Vec<String> = Vec::new();
        let mut q: usize = ex;
        while q < kept.len()
            invariant
                ex <= q <= kept@.len(),
                l1 == digests(kept),
                self.index() == um0,
                self.max_sessions_per_user == old(self).max_sessions_per_user,
                digests(rest) == l1.subrange(ex as int, q as int),
            decreases kept@.len() - q,
        {
            assert(l1[q as int] == kept@[q as int]@);
            let ghost d0 = digests(rest);
            let item = string_of(chars_of(kept[q].as_str()).as_slice());
            assert(item@ == l1[q as int]);
            rest.push(item);
            assert(digests(rest) =~= d0.push(l1[q as int]));
            assert(l1.subrange(ex as int, q + 1) =~= l1.subrange(ex as int, q as int).push(l1[q as int]));
            q = q + 1;
        }
        proof {
            assert(l1.subrange(ex as int, l1.len() as int) =~= l1.skip(ex as int));
        }
        lists_insert(&mut self.user_sessions, string_of(ukey.as_slice()), rest);
        proof {
            assert(self.index() =~= old(self).index().insert(user_id@, l1.skip(ex as int)));
            assert(Session { active: true, ..self.sessions.map()[token_key(token@)] } == st);
        }
        Session {
            token: text(token),
            user_id: text(user_id),
            created_at: now,
            expires_at: now + ttl_secs,
            last_activity: now,
            ip: text(ip),
            user_agent: text(user_agent),
            device_name: device,
            active: true,
        }
    }


    /// Checks a plaintext token at `now`: a stored, active, unexpired session
    /// has its last activity moved to `now` and is returned with the
    /// plaintext token; anything else gives `None` and changes nothing.
    pub fn validate_at(&mut self, token: &str, now: u64) -> (r: Option<Session>)
        ensures
            final(self).index() == old(self).index(),
            final(self).max_sessions() == old(self).max_sessions(),
            ({
                let h = token_key(token@);
                let m = old(self).sessions();
                if live(m, now, h) {
                    &&& final(self).sessions() == m.insert(h, Session { last_activity: now, ..m[h] })
                    &&& r matches Some(s) && s.token@ == token@ && s.user_id@ == m[h].user_id@ && s.created_at == m[h].created_at
                        && s.expires_at == m[h].expires_at && s.last_activity == now && s.ip@ == m[h].ip@
                        && s.user_agent@ == m[h].user_agent@ && s.device_name@ == m[h].device_name@ && s.active
                } else {
                    r is None && final(self).sessions() == m
                }
            }),
    {
        let h = hash_token(token);
        let key = chars_of(h.as_str());
        match self.sessions.position(&key) {
            None => None,
            Some(p) => {
                let ghost before = self.sessions.map();
                let (k, mut sess) = self.sessions.take_at(p);
                if !sess.active || now > sess.expires_at {
                    self.sessions.insert_at(p, k, sess);
                    assert(self.sessions.map() =~= before);
                    return None;
                }
                sess.last_activity = now;
                let out = Session {
                    token: text(token),
                    user_id: string_of(chars_of(sess.user_id.as_str()).as_slice()),
                    created_at: sess.created_at,
                    expires_at: sess.expires_at,
                    last_activity: now,
                    ip: string_of(chars_of(sess.ip.as_str()).as_slice()),
                    user_agent: string_of(chars_of(sess.user_agent.as_str()).as_slice()),
                    device_name: string_of(chars_of(sess.device_name.as_str()).as_slice()),
                    active: true,
                };
                self.sessions.insert_at(p, k, sess);
                Some(out)
            },
        }
    }

    /// `validate_at` at the current clock reading.
    pub fn validate(&mut self, token: &str) -> (r: Option<Session>)
        ensures
            final(self).index() == old(self).index(),
            !old(self).sessions().contains_key(token_key(token@)) ==> r is None,
            r matches Some(s) ==> s.token@ == token@ && old(self).sessions().contains_key(token_key(token@))
                && s.user_id@ == old(self).sessions()[token_key(token@)].user_id@,
            exists|now: u64| #[trigger] validated(old(self).sessions(), final(self).sessions(), token@, now, r),
    {
        let now = crate::clock::now_secs();
        let r = self.validate_at(token, now);
        assert(validated(old(self).sessions(), self.sessions(), token@, now, r));
        r
    }

    /// Ends the session of a plaintext token: it is removed, and its digest
    /// leaves its user's list. Tells whether there was one.
    pub fn invalidate(&mut self, token: &str) -> (found: bool)
        ensures
            final(self).max_sessions() == old(self).max_sessions(),
            ({
                let h = token_key(token@);
                let m = old(self).sessions();
                &&& found == m.contains_key(h)
                &&& found ==> final(self).sessions() == m.remove(h)
                &&& found ==> final(self).index() == if old(self).index().contains_key(m[h].user_id@) {
                    old(self).index().insert(m[h].user_id@, old(self).index()[m[h].user_id@].filter(|t: Seq<char>| t != h))
                } else {
                    old(self).index()
                }
                &&& !found ==> final(self).sessions() == m && final(self).index() == old(self).index()
            }),
    {
        let h = hash_token(token);
        let key = chars_of(h.as_str());
        let uid: Vec<char> = match self.sessions.get(&key) {
            None => {
                return false;
            },
            Some(s) => chars_of(s.user_id.as_str()),
        };
        let ghost hv = h@;
        let uid_text = string_of(uid.as_slice());
        match lists_remove(&mut self.user_sessions, uid_text.as_str()) {
            None => {
                assert(self.index() =~= old(self).index());
            },
            Some(list) => {
                let ghost l0 = digests(list);
                let mut kept: Vec<String> = Vec::new();
                let mut i: usize = 0;
                while i < list.len()
                    invariant
                        i <= list@.len(),
                        l0 == digests(list),
                        key@ == hv,
                        digests(kept) == l0.subrange(0, i as int).filter(|t: Seq<char>| t != hv),
                    decreases list@.len() - i,
                {
                    proof {
                        reveal_with_fuel(Seq::filter, 1);
                        assert(l0.subrange(0, i + 1).drop_last() =~= l0.subrange(0, i as int));
                        assert(l0[i as int] == list@[i as int]@);
                    }
                    let t = chars_of(list[i].as_str());
                    if !crate::text::eq(t.as_slice(), key.as_slice()) {
                        let ghost d0 = digests(kept);
                        let item = string_of(t.as_slice());
                        kept.push(item);
                        assert(digests(kept) =~= d0.push(l0[i as int]));
                    }
                    i = i + 1;
                }
                proof {
                    assert(l0.subrange(0, l0.len() as int) =~= l0);
                }
                lists_insert(&mut self.user_sessions, uid_text, kept);
            },
        }
        let _ = self.sessions.remove(&key);
        proof {
            let m = old(self).sessions();
            let u = m[hv].user_id@;
            if old(self).index().contains_key(u) {
                assert(self.index() =~= old(self).index().insert(u, old(self).index()[u].filter(|t: Seq<char>| t != hv)));
            } else {
                assert(self.index() =~= old(self).index());
            }
        }
        true
    }

    /// How many stored sessions are active.
    pub fn active_count(&self) -> (n: usize)
        ensures
            n == self.sessions().dom().filter(|k: Seq<char>| self.sessions()[k].active).len(),
    {
        let len = self.sessions.len();
        let ghost keys = self.sessions.keys();
        let ghost m = self.sessions.map();
        let mut n: usize = 0;
        let mut i: usize = 0;
        proof {
            crate::store::lemma_dom_len(keys, m);
        }
        while i < len
            invariant
                i <= len,
                len == keys.len(),
                keys == self.sessions.keys(),
                m == self.sessions.map(),
                keys.no_duplicates(),
                forall|k: Seq<char>| m.contains_key(k) <==> keys.contains(k),
                n <= i,
                n == keys.subrange(0, i as int).filter(|k: Seq<char>| m[k].active).len(),
            decreases len - i,
        {
            proof {
                reveal_with_fuel(Seq::filter, 1);
                assert(keys.subrange(0, i + 1).drop_last() =~= keys.subrange(0, i as int));
            }
            let (_, s) = self.sessions.entry_at(i);
            if s.active {
                n = n + 1;
            }
            i = i + 1;
        }
        proof {
            assert(keys.subrange(0, len as int) =~= keys);
            lemma_filter_count_by(keys, m, |k: Seq<char>| m[k].active);
        }
        n
    }

    /// How many sessions are stored.
    pub fn total_count(&self) -> (n: usize)
        ensures
            n == self.sessions().len(),
    {
        let n = self.sessions.len();
        proof {
            crate::store::lemma_dom_len(self.sessions.keys(), self.sessions.map());
        }
        n
    }


    /// `create_at` at the current clock reading; an expiry past the largest
    /// clock reading is capped there.
    pub fn create(&mut self, user_id: &str, token: &str, ip: &str, user_agent: &str, ttl_secs: u64) -> (s: Session)
        ensures
            s.token@ == token@,
            s.user_id@ == user_id@,
            s.active,
            final(self).sessions().contains_key(token_key(token@)),
            final(self).max_sessions() == old(self).max_sessions(),
            exists|now: u64| #[trigger] opened(
                *old(self),
                *final(self),
                user_id@,
                token@,
                ip@,
                user_agent@,
                capped_ttl(ttl_secs, now),
                now,
                s,
            ),
    {
        let now = crate::clock::now_secs();
        let ttl = if ttl_secs > u64::MAX - now { u64::MAX - now } else { ttl_secs };
        let s = self.create_at(user_id, token, ip, user_agent, ttl, now);
        assert(ttl == capped_ttl(ttl_secs, now));
        assert(opened(*old(self), *self, user_id@, token@, ip@, user_agent@, capped_ttl(ttl_secs, now), now, s));
        s
    }

    /// Ends every session of a user and forgets the user's list; gives how
    /// many of them were active.
    pub fn invalidate_all(&mut self, user_id: &str) -> (n: usize)
        ensures
            final(self).max_sessions() == old(self).max_sessions(),
            final(self).index() == old(self).index().remove(user_id@),
            final(self).sessions() == drop_all(old(self).sessions(), old(self).user_list(user_id@)).0,
            n == drop_all(old(self).sessions(), old(self).user_list(user_id@)).1,
    {
        let list: Vec<String> = match lists_remove(&mut self.user_sessions, user_id) {
            Some(v) => v,
            None => Vec::new(),
        };
        let ghost l = digests(list);
        let ghost m0 = self.sessions.map();
        let ghost um = self.index();
        proof {
            assert(l == old(self).user_list(user_id@));
            assert(um =~= old(self).index().remove(user_id@));
        }
        let mut count: usize = 0;
        let mut i: usize = 0;
        while i < list.len()
            invariant
                i <= list@.len(),
                l == digests(list),
                self.index() == um,
                self.max_sessions_per_user == old(self).max_sessions_per_user,
                (self.sessions.map(), count as nat) == drop_all(m0, l.subrange(0, i as int)),
                count <= i,
            decreases list@.len() - i,
        {
            proof {
                assert(l.subrange(0, i + 1).drop_last() =~= l.subrange(0, i as int));
                assert(l[i as int] == list@[i as int]@);
            }
            let t = chars_of(list[i].as_str());
            let was_active = match self.sessions.get(&t) {
                Some(s) => s.active,
                None => false,
            };
            if was_active {
                count = count + 1;
            }
            let _ = self.sessions.remove(&t);
            i = i + 1;
        }
        proof {
            assert(l.subrange(0, l.len() as int) =~= l);
            assert(self.index() =~= old(self).index().remove(user_id@));
        }
        count
    }

    /// Drops every stored session that is no longer live at `now` (expired
    /// or inactive) and takes its digest off its own user's list; gives how
    /// many were dropped.
    pub fn cleanup_expired_at(&mut self, now: u64) -> (n: usize)
        ensures
            final(self).max_sessions() == old(self).max_sessions(),
            final(self).sessions() == live_only(old(self).sessions(), now),
            final(self).index() == pruned_index(old(self).index(), old(self).sessions(), now),
            n == old(self).sessions().dom().filter(|k: Seq<char>| !live(old(self).sessions(), now, k)).len(),
    {
        let ghost m0 = self.sessions.map();
        let ghost idx0 = self.index();
        let keys = lists_keys(&self.user_sessions);
        let ghost keys0 = keys@.map_values(|u: String| u@);
        let un = keys.len();
        proof {
            assert forall|a: int, b: int| 0 <= a < keys0.len() && 0 <= b < keys0.len() && a != b implies keys0[a] != keys0[b] by {
                if a < b {
                    assert(keys@[a]@ != keys@[b]@);
                } else {
                    assert(keys@[b]@ != keys@[a]@);
                }
            }
            assert forall|u: Seq<char>| idx0.contains_key(u) <==> keys0.contains(u) by {
                if idx0.contains_key(u) {
                    let j = choose|j: int| 0 <= j < keys@.len() && keys@[j]@ == u;
                    assert(keys0[j] == u);
                }
                if keys0.contains(u) {
                    let j = choose|j: int| 0 <= j < keys0.len() && keys0[j] == u;
                    assert(list_map(self.user_sessions).contains_key(keys@[j]@));
                }
            }
        }
        let mut i: usize = 0;
        while i < un
            invariant
                i <= un,
                un == keys0.len(),
                keys0 == keys@.map_values(|u: String| u@),
                keys0.no_duplicates(),
                forall|u: Seq<char>| idx0.contains_key(u) <==> keys0.contains(u),
                forall|u: Seq<char>| self.index().contains_key(u) <==> keys0.contains(u),
                self.sessions.map() == m0,
                self.max_sessions_per_user == old(self).max_sessions_per_user,
                forall|j: int| 0 <= j < i ==> #[trigger] self.index()[keys0[j]] == pruned(idx0[keys0[j]], m0, keys0[j], now),
                forall|j: int| i <= j < un ==> #[trigger] self.index()[keys0[j]] == idx0[keys0[j]],
            decreases un - i,
        {
            let ghost before = self.index();
            let ghost kv = keys0[i as int];
            proof {
                assert(before[keys0[i as int]] == idx0[keys0[i as int]]);
                assert(keys@[i as int]@ == kv);
                assert(keys0.contains(kv));
            }
            let list = match lists_remove(&mut self.user_sessions, keys[i].as_str()) {
                Some(l) => l,
                None => Vec::new(),
            };
            let k = chars_of(keys[i].as_str());
            let kept = prune_list(&self.sessions, &list, &k, now);
            proof {
                assert(digests(list) == idx0[kv]);
            }
            lists_insert(&mut self.user_sessions, string_of(k.as_slice()), kept);
            proof {
                assert(self.index() =~= before.insert(kv, digests(kept)));
                assert forall|j: int| 0 <= j < un && j != i implies #[trigger] self.index()[keys0[j]] == before[keys0[j]] by {
                    assert(keys0[j] != kv);
                }
            }
            i = i + 1;
        }
        proof {
            assert forall|u: Seq<char>| self.index().contains_key(u) <==> pruned_index(idx0, m0, now).contains_key(u) by {
                assert(self.index().contains_key(u) <==> keys0.contains(u));
                assert(idx0.contains_key(u) <==> keys0.contains(u));
                assert(pruned_index(idx0, m0, now).contains_key(u) <==> idx0.contains_key(u));
            }
            assert forall|u: Seq<char>| #[trigger] self.index().contains_key(u) implies self.index()[u] == pruned_index(idx0, m0, now)[u] by {
                assert(keys0.contains(u));
                let j = choose|j: int| 0 <= j < keys0.len() && #[trigger] keys0[j] == u;
                assert(self.index()[keys0[j]] == pruned(idx0[keys0[j]], m0, keys0[j], now));
            }
            assert(self.index() =~= pruned_index(idx0, m0, now));
        }
        let ghost idx1 = self.index();
        let dead = dead_keys(&self.sessions, now);
        let mut d: usize = 0;
        while d < dead.len()
            invariant
                d <= dead@.len(),
                self.index() == idx1,
                self.max_sessions_per_user == old(self).max_sessions_per_user,
                self.sessions.map() == Map::new(
                    |k: Seq<char>| m0.contains_key(k) && !key_texts(dead@).subrange(0, d as int).contains(k),
                    |k: Seq<char>| m0[k],
                ),
            decreases dead@.len() - d,
        {
            let ghost ds = key_texts(dead@);
            let ghost before = self.sessions.map();
            let _ = self.sessions.remove(&dead[d]);
            proof {
                let a = ds.subrange(0, d + 1);
                let b = ds.subrange(0, d as int);
                assert(a =~= b.push(ds[d as int]));
                assert forall|k: Seq<char>| a.contains(k) <==> (b.contains(k) || k == ds[d as int]) by {
                    if a.contains(k) {
                        let j = choose|j: int| 0 <= j < a.len() && #[trigger] a[j] == k;
                        if j < d {
                            assert(b[j] == k);
                        }
                    }
                    if b.contains(k) {
                        let j = choose|j: int| 0 <= j < b.len() && #[trigger] b[j] == k;
                        assert(a[j] == k);
                    }
                    if k == ds[d as int] {
                        assert(a[d as int] == k);
                    }
                }
                assert(self.sessions.map() =~= Map::new(
                    |k: Seq<char>| m0.contains_key(k) && !ds.subrange(0, d + 1).contains(k),
                    |k: Seq<char>| m0[k],
                ));
            }
            d = d + 1;
        }
        proof {
            let ds = key_texts(dead@);
            assert(ds.subrange(0, dead@.len() as int) =~= ds);
            assert(self.sessions.map() =~= live_only(m0, now));
            assert(self.index() =~= pruned_index(old(self).index(), old(self).sessions(), now));
        }
        dead.len()
    }

    /// `cleanup_expired_at` at the current clock reading.
    pub fn cleanup_expired(&mut self) -> (n: usize)
        ensures
            final(self).max_sessions() == old(self).max_sessions(),
            exists|now: u64| {
                &&& final(self).sessions() == live_only(old(self).sessions(), now)
                &&& final(self).index() == pruned_index(old(self).index(), old(self).sessions(), now)
                &&& n == old(self).sessions().dom().filter(|k: Seq<char>| !live(old(self).sessions(), now, k)).len()
            },
    {
        let now = crate::clock::now_secs();
        self.cleanup_expired_at(now)
    }

}

/// The test for a stored session no longer live at `now`.
pub open spec fn not_live(m: Map<Seq<char>, Session>, now: u64) -> spec_fn(Seq<char>) -> bool {
    |k: Seq<char>| !live(m, now, k)
}

/// What checking a token at `now` does to the stored sessions and gives: a
/// live session has its last activity moved to `now` and comes back with
/// the plaintext token; otherwise `None`, and nothing changes.
pub open spec fn validated(m: Map<Seq<char>, Session>, after: Map<Seq<char>, Session>, token: Seq<char>, now: u64, r: Option<Session>) -> bool {
    let h = token_key(token);
    if live(m, now, h) {
        &&& after == m.insert(h, Session { last_activity: now, ..m[h] })
        &&& r matches Some(s) && s.token@ == token && s.user_id@ == m[h].user_id@ && s.created_at == m[h].created_at
            && s.expires_at == m[h].expires_at && s.last_activity == now && s.ip@ == m[h].ip@
            && s.user_agent@ == m[h].user_agent@ && s.device_name@ == m[h].device_name@ && s.active
    } else {
        r is None && after == m
    }
}

/// A lifetime cut so that `now` plus it stays within the clock's range.
pub open spec fn capped_ttl(ttl: u64, now: u64) -> u64 {
    if ttl > u64::MAX - now {
        (u64::MAX - now) as u64
    } else {
        ttl
    }
}

/// The texts of a list of keys.
pub open spec fn key_texts(v: Seq<Vec<char>>) -> Seq<Seq<char>> {
    v.map_values(|x: Vec<char>| x@)
}

/// Cleaning up splits the stored sessions in two: those kept are exactly
/// the live ones, unchanged, and those kept and those dropped together are
/// all of them.
pub proof fn law_cleanup_partitions(m: Map<Seq<char>, Session>, now: u64)
    requires
        m.dom().finite(),
    ensures
        forall|k: Seq<char>| #[trigger] live_only(m, now).contains_key(k) <==> live(m, now, k),
        forall|k: Seq<char>| #[trigger] live_only(m, now).contains_key(k) ==> live_only(m, now)[k] == m[k],
        live_only(m, now).len() + m.dom().filter(|k: Seq<char>| !live(m, now, k)).len() == m.len(),
{
    let a = m.dom().filter(|k: Seq<char>| live(m, now, k));
    let b = m.dom().filter(|k: Seq<char>| !live(m, now, k));
    assert(live_only(m, now).dom() =~= a);
    assert(a.disjoint(b));
    assert(a + b =~= m.dom());
    vstd::set_lib::lemma_set_disjoint_lens(a, b);
}

/// The stored sessions that are live at `now`.
pub open spec fn live_only(m: Map<Seq<char>, Session>, now: u64) -> Map<Seq<char>, Session> {
    Map::new(|k: Seq<char>| live(m, now, k), |k: Seq<char>| m[k])
}

/// A user's list without the digests of that user's stored sessions that
/// are no longer live at `now`.
pub open spec fn pruned(l: Seq<Seq<char>>, m: Map<Seq<char>, Session>, u: Seq<char>, now: u64) -> Seq<Seq<char>> {
    l.filter(|t: Seq<char>| !(m.contains_key(t) && !live(m, now, t) && m[t].user_id@ == u))
}

/// Every user's list pruned.
pub open spec fn pruned_index(
    idx: Map<Seq<char>, Seq<Seq<char>>>,
    m: Map<Seq<char>, Session>,
    now: u64,
) -> Map<Seq<char>, Seq<Seq<char>>> {
    Map::new(|u: Seq<char>| idx.contains_key(u), |u: Seq<char>| pruned(idx[u], m, u, now))
}

/// A user's list with the digests that `pruned` drops left out.
fn prune_list(sessions: &VecMap<Vec<char>, Session>, list: &Vec<String>, u: &Vec<char>, now: u64) -> (r: Vec<String>)
    ensures
        digests(r) == pruned(digests(*list), sessions.map(), u@, now),
{
    let ghost l0 = digests(*list);
    let ghost m = sessions.map();
    let mut kept: Vec<String> = Vec::new();
    let mut i: usize = 0;
    while i < list.len()
        invariant
            i <= list@.len(),
            l0 == digests(*list),
            m == sessions.map(),
            digests(kept) == pruned(l0.subrange(0, i as int), m, u@, now),
        decreases list@.len() - i,
    {
        proof {
            reveal_with_fuel(Seq::filter, 1);
            assert(l0.subrange(0, i + 1).drop_last() =~= l0.subrange(0, i as int));
            assert(l0[i as int] == list@[i as int]@);
        }
        let t = chars_of(list[i].as_str());
        let drop = match sessions.get(&t) {
            Some(s) => !(s.active && now <= s.expires_at) && crate::text::eq(chars_of(s.user_id.as_str()).as_slice(), u.as_slice()),
            None => false,
        };
        if !drop {
            let ghost d0 = digests(kept);
            let item = string_of(t.as_slice());
            kept.push(item);
            assert(digests(kept) =~= d0.push(l0[i as int]));
        }
        i = i + 1;
    }
    proof {
        assert(l0.subrange(0, l0.len() as int) =~= l0);
    }
    kept
}

/// The keys of the stored sessions that are no longer live at `now`, in
/// key order.
fn dead_keys(sessions: &VecMap<Vec<char>, Session>, now: u64) -> (r: Vec<Vec<char>>)
    ensures
        forall|k: Seq<char>| #[trigger] key_texts(r@).contains(k) <==> (sessions.map().contains_key(k) && !live(sessions.map(), now, k)),
        r@.len() == sessions.map().dom().filter(|k: Seq<char>| !live(sessions.map(), now, k)).len(),
{
    let len = sessions.len();
    let ghost keys = sessions.keys();
    let ghost m = sessions.map();
    let ghost p = not_live(m, now);
    let mut r: Vec<Vec<char>> = Vec::new();
    let mut i: usize = 0;
    while i < len
        invariant
            i <= len,
            len == keys.len(),
            keys == sessions.keys(),
            m == sessions.map(),
            keys.no_duplicates(),
            forall|k: Seq<char>| m.contains_key(k) <==> keys.contains(k),
            p == not_live(m, now),
            key_texts(r@) == keys.subrange(0, i as int).filter(p),
        decreases len - i,
    {
        proof {
            reveal_with_fuel(Seq::filter, 1);
            assert(keys.subrange(0, i + 1).drop_last() =~= keys.subrange(0, i as int));
        }
        let (k, s) = sessions.entry_at(i);
        assert(p(keys[i as int]) == !(s.active && now <= s.expires_at));
        if !(s.active && now <= s.expires_at) {
            let ghost r0 = key_texts(r@);
            let c = crate::text::slice(k.as_slice(), 0, k.len());
            assert(c@ =~= keys[i as int]);
            r.push(c);
            assert(key_texts(r@) =~= r0.push(keys[i as int]));
        }
        i = i + 1;
    }
    proof {
        assert(keys.subrange(0, len as int) =~= keys);
        let f = keys.filter(p);
        broadcast use vstd::seq_lib::group_filter_ensures;
        assert forall|k: Seq<char>| #[trigger] f.contains(k) <==> (m.contains_key(k) && !live(m, now, k)) by {
            if m.contains_key(k) && !live(m, now, k) {
                assert(keys.contains(k));
                let j = choose|j: int| 0 <= j < keys.len() && #[trigger] keys[j] == k;
                assert(p(keys[j]));
                keys.lemma_filter_contains(p, j);
            }
            if f.contains(k) {
                keys.lemma_filter_contains_rev(p, k);
            }
        }
        lemma_filter_count_by(keys, m, p);
    }
    r
}

/// The keys of a distinct list of a map's keys that meet a test are as many
/// as the map's keys that meet it.
proof fn lemma_filter_count_by(keys: Seq<Seq<char>>, m: Map<Seq<char>, Session>, p: spec_fn(Seq<char>) -> bool)
    requires
        keys.no_duplicates(),
        forall|k: Seq<char>| m.contains_key(k) <==> keys.contains(k),
    ensures
        keys.filter(p).len() == m.dom().filter(p).len(),
{
    let f = keys.filter(p);
    broadcast use vstd::seq_lib::group_filter_ensures;
    assert(f.to_set() =~= m.dom().filter(p)) by {
        assert forall|k: Seq<char>| f.to_set().contains(k) <==> m.dom().filter(p).contains(k) by {
            if m.dom().filter(p).contains(k) {
                assert(m.dom().contains(k) && p(k));
                assert(keys.contains(k));
                let i = choose|i: int| 0 <= i < keys.len() && #[trigger] keys[i] == k;
                keys.lemma_filter_contains(p, i);
            }
            if f.to_set().contains(k) {
                keys.lemma_filter_contains_rev(p, k);
            }
        }
    }
    lemma_filter_no_dup(keys, p);
    f.unique_seq_to_set();
}

/// The sessions after removing those in a list, in order, with how many
/// of them were active when removed.
pub open spec fn drop_all(m: Map<Seq<char>, Session>, l: Seq<Seq<char>>) -> (Map<Seq<char>, Session>, nat)
    decreases l.len(),
{
    if l.len() == 0 {
        (m, 0)
    } else {
        let (m1, c) = drop_all(m, l.drop_last());
        let t = l.last();
        (m1.remove(t), c + if m1.contains_key(t) && m1[t].active { 1nat } else { 0nat })
    }
}

/// The keys kept as live are among the keys of the list.
proof fn lemma_keep_live_sub(l: Seq<Seq<char>>, m: Map<Seq<char>, Session>, now: u64)
    ensures
        forall|x: Seq<char>| #[trigger] keep_live(l, m, now).contains(x) ==> l.contains(x) && live(m, now, x),
        keep_live(l, m, now).len() <= l.len(),
    decreases l.len(),
{
    if l.len() > 0 {
        lemma_keep_live_sub(l.drop_last(), m, now);
        let r = keep_live(l.drop_last(), m, now);
        assert forall|x: Seq<char>| #[trigger] keep_live(l, m, now).contains(x) implies l.contains(x) && live(m, now, x) by {
            if r.contains(x) {
                let j = choose|j: int| 0 <= j < l.drop_last().len() && l.drop_last()[j] == x;
                assert(l[j] == x);
            } else {
                let k = choose|k: int| 0 <= k < keep_live(l, m, now).len() && keep_live(l, m, now)[k] == x;
                assert(k == r.len());
                assert(l[l.len() - 1] == x);
            }
        }
    }
}

/// A user never keeps more live sessions than the limit: after a session
/// is opened the user's list holds at most that many.
pub proof fn law_session_limit(l1: Seq<Seq<char>>, max: nat)
    requires
        max >= 1,
    ensures
        l1.skip(excess(l1.len(), max) as int).len() <= max,
{
}

/// A session opened with a token not already on the user's list stays
/// active: it is never the one retired to make room.
pub proof fn law_new_session_kept(
    l0: Seq<Seq<char>>,
    m1: Map<Seq<char>, Session>,
    h: Seq<char>,
    now: u64,
    max: nat,
)
    requires
        max >= 1,
        !l0.contains(h),
        live(m1, now, h),
    ensures
        ({
            let l1 = keep_live(l0.push(h), m1, now);
            let ex = excess(l1.len(), max);
            &&& deactivate(m1, l1.take(ex as int))[h].active
            &&& l1.skip(ex as int).contains(h)
        }),
{
    let l1 = keep_live(l0.push(h), m1, now);
    assert(l0.push(h).drop_last() =~= l0);
    let r = keep_live(l0, m1, now);
    assert(l1 == r.push(h));
    lemma_keep_live_sub(l0, m1, now);
    let ex = excess(l1.len(), max);
    assert(ex < l1.len());
    if l1.take(ex as int).contains(h) {
        let k = choose|k: int| 0 <= k < l1.take(ex as int).len() && l1.take(ex as int)[k] == h;
        assert(r[k] == h);
        assert(r.contains(h));
    }
    assert(l1.skip(ex as int)[l1.len() - 1 - ex] == h);
}

} // verus!
