//! The login façade over the user store and the session store: a
//! successful login and the opening of its session happen in one call, so
//! no token is handed out without a session behind it.
use vstd::prelude::*;
use vstd::string::StringSliceAdditionalSpecFns;
use crate::identity::users::{User, UserManager, UserRole, AuthResult, login_effect, mfa_login_effect};
use crate::identity::sessions::drop_all;
use crate::identity::sessions::{Session, SessionManager, opened, token_key, live};
use crate::config::text;

verus! {

/// The outcome of a login through the façade.
pub enum AuthOutcome {
    /// Logged in, and the session is open; its token may go to the client.
    Success { user_id: String, email: String, session: Session },
    /// The second factor is needed.
    MfaRequired { user_id: String },
    AccountDisabled,
    LockedOut { retry_after_secs: u64 },
    InvalidCredentials,
}

/// The user store, the session store, and how long a session lasts.
pub struct Authenticator {
    users: UserManager,
    sessions: SessionManager,
    session_ttl_secs: u64,
}

/// The session lifetime used at `now`: the configured one, cut so the expiry
/// stays within the clock's range.
pub open spec fn ttl_at(ttl: u64, now: u64) -> u64 {
    if ttl > u64::MAX - now {
        (u64::MAX - now) as u64
    } else {
        ttl
    }
}

/// How a user-store answer becomes the façade's answer: a success opens a
/// session for that user with the answer's token; every other answer is
/// passed on and leaves the sessions as they were.
pub open spec fn issued(
    ar: AuthResult,
    r: AuthOutcome,
    email: Seq<char>,
    before: SessionManager,
    after: SessionManager,
    ip: Seq<char>,
    user_agent: Seq<char>,
    ttl: u64,
    now: u64,
) -> bool {
    match ar {
        AuthResult::Success { user_id, token } => {
            &&& r matches AuthOutcome::Success { user_id: uid, email: e, session } && uid@ == user_id@ && e@ == email
                && opened(before, after, user_id@, token@, ip, user_agent, ttl, now, session)
        },
        AuthResult::MfaRequired { user_id } => {
            &&& r matches AuthOutcome::MfaRequired { user_id: uid } && uid@ == user_id@
            &&& after == before
        },
        AuthResult::AccountDisabled => r is AccountDisabled && after == before,
        AuthResult::LockedOut { retry_after_secs } => r == (AuthOutcome::LockedOut { retry_after_secs }) && after == before,
        AuthResult::InvalidCredentials => r is InvalidCredentials && after == before,
    }
}

/// The email of the user with this id (empty when there is none).
pub open spec fn email_of(m: UserManager, id: Seq<char>) -> Seq<char> {
    if m.users().contains_key(id) {
        m.users()[id].email@
    } else {
        Seq::empty()
    }
}

impl Authenticator {
    /// The user store's own consistency.
    pub closed spec fn wf(&self) -> bool {
        self.users.wf()
    }

    /// The user store.
    pub closed spec fn user_store(&self) -> UserManager {
        self.users
    }

    /// The session store.
    pub closed spec fn session_store(&self) -> SessionManager {
        self.sessions
    }

    /// The configured session lifetime, in seconds.
    pub closed spec fn ttl(&self) -> u64 {
        self.session_ttl_secs
    }

    /// A façade over the two stores, with sessions lasting a day.
    pub fn new(users: UserManager, sessions: SessionManager) -> (a: Self)
        requires
            users.wf(),
        ensures
            a.wf(),
            a.user_store() == users,
            a.session_store() == sessions,
            a.ttl() == 86_400,
    {
        Authenticator { users, sessions, session_ttl_secs: 86_400 }
    }

    /// The same façade with another session lifetime, at least a minute.
    pub fn with_session_ttl(self, secs: u64) -> (a: Self)
        ensures
            a.wf() == self.wf(),
            a.user_store() == self.user_store(),
            a.session_store() == self.session_store(),
            a.ttl() == if secs < 60 { 60 } else { secs },
    {
        let Authenticator { users, sessions, .. } = self;
        Authenticator { users, sessions, session_ttl_secs: if secs < 60 { 60 } else { secs } }
    }

    /// A login at `now` from `ip` with `user_agent`, with `uuid` for the
    /// token: the user store decides, and a success opens the session in the
    /// same call.
    pub fn login_at(&mut self, email: &str, password: &str, ip: &str, user_agent: &str, now: u64, uuid: &str) -> (r: AuthOutcome)
        requires
            old(self).wf(),
        ensures
            final(self).wf(),
            final(self).ttl() == old(self).ttl(),
            exists|ar: AuthResult|
                login_effect(old(self).user_store(), final(self).user_store(), email@, password@, now, uuid@, ar)
                    && #[trigger] issued(
                    ar,
                    r,
                    email@,
                    old(self).session_store(),
                    final(self).session_store(),
                    ip@,
                    user_agent@,
                    ttl_at(old(self).ttl(), now),
                    now,
                ),
    {
        let ar = self.users.authenticate_with(email, password, now, uuid);
        let ttl = if self.session_ttl_secs > u64::MAX - now {
            u64::MAX - now
        } else {
            self.session_ttl_secs
        };
        let r = match &ar {
            AuthResult::Success { user_id, token } => {
                let session = self.sessions.create_at(user_id.as_str(), token.as_str(), ip, user_agent, ttl, now);
                AuthOutcome::Success { user_id: text(user_id.as_str()), email: text(email), session }
            },
            AuthResult::MfaRequired { user_id } => AuthOutcome::MfaRequired { user_id: text(user_id.as_str()) },
            AuthResult::AccountDisabled => AuthOutcome::AccountDisabled,
            AuthResult::LockedOut { retry_after_secs } => AuthOutcome::LockedOut { retry_after_secs: *retry_after_secs },
            AuthResult::InvalidCredentials => AuthOutcome::InvalidCredentials,
        };
        assert(ttl == ttl_at(old(self).ttl(), now));
        assert(login_effect(old(self).user_store(), self.user_store(), email@, password@, now, uuid@, ar));
        assert(issued(ar, r, email@, old(self).session_store(), self.session_store(), ip@, user_agent@, ttl_at(old(self).ttl(), now), now));
        r
    }

    /// `login_at` at the current clock reading with a fresh UUID.
    pub fn login(&mut self, email: &str, password: &str, ip: &str, user_agent: &str) -> (r: AuthOutcome)
        requires
            old(self).wf(),
        ensures
            final(self).wf(),
            final(self).ttl() == old(self).ttl(),
            r matches AuthOutcome::Success { session, .. } ==> session.active
                && final(self).session_store().sessions().contains_key(token_key(session.token@)),
            exists|now: u64, uuid: Seq<char>, ar: AuthResult|
                #[trigger] login_effect(old(self).user_store(), final(self).user_store(), email@, password@, now, uuid, ar)
                    && issued(
                    ar,
                    r,
                    email@,
                    old(self).session_store(),
                    final(self).session_store(),
                    ip@,
                    user_agent@,
                    ttl_at(old(self).ttl(), now),
                    now,
                ),
    {
        let now = crate::clock::now_secs();
        let uuid = crate::ids::new_id();
        let r = self.login_at(email, password, ip, user_agent, now, uuid.as_str());
        proof {
            let ar = choose|ar: AuthResult|
                login_effect(old(self).user_store(), self.user_store(), email@, password@, now, uuid@, ar) && #[trigger] issued(
                    ar,
                    r,
                    email@,
                    old(self).session_store(),
                    self.session_store(),
                    ip@,
                    user_agent@,
                    ttl_at(old(self).ttl(), now),
                    now,
                );
            assert(login_effect(old(self).user_store(), self.user_store(), email@, password@, now, uuid@, ar));
        }
        r
    }

    /// The second step of an MFA login at `now`, with `uuid` for the token:
    /// an accepted code opens the session in the same call; a disabled
    /// account is told so, and anything else is refused as invalid.
    pub fn complete_mfa_at(&mut self, user_id: &str, code: &str, ip: &str, user_agent: &str, now: u64, uuid: &str) -> (r: AuthOutcome)
        requires
            old(self).wf(),
        ensures
            final(self).wf(),
            final(self).ttl() == old(self).ttl(),
            exists|ar: AuthResult|
                mfa_login_effect(old(self).user_store(), final(self).user_store(), user_id@, code.spec_bytes(), now, uuid@, ar)
                    && #[trigger] issued(
                    ar,
                    r,
                    email_of(old(self).user_store(), user_id@),
                    old(self).session_store(),
                    final(self).session_store(),
                    ip@,
                    user_agent@,
                    ttl_at(old(self).ttl(), now),
                    now,
                ),
    {
        let email = match self.users.get_user(user_id) {
            Some(u) => text(u.email.as_str()),
            None => text(""),
        };
        proof {
            reveal_strlit("");
        }
        let ar = self.users.complete_mfa_login_with(user_id, code, now, uuid);
        let ttl = if self.session_ttl_secs > u64::MAX - now {
            u64::MAX - now
        } else {
            self.session_ttl_secs
        };
        let r = match &ar {
            AuthResult::Success { user_id: uid, token } => {
                let session = self.sessions.create_at(uid.as_str(), token.as_str(), ip, user_agent, ttl, now);
                AuthOutcome::Success { user_id: text(uid.as_str()), email, session }
            },
            AuthResult::AccountDisabled => AuthOutcome::AccountDisabled,
            _ => AuthOutcome::InvalidCredentials,
        };
        assert(ttl == ttl_at(old(self).ttl(), now));
        assert(email@ == email_of(old(self).user_store(), user_id@));
        assert(mfa_login_effect(old(self).user_store(), self.user_store(), user_id@, code.spec_bytes(), now, uuid@, ar));
        assert(issued(ar, r, email_of(old(self).user_store(), user_id@), old(self).session_store(), self.session_store(), ip@, user_agent@, ttl_at(old(self).ttl(), now), now));
        r
    }

    /// `complete_mfa_at` at the current clock reading with a fresh UUID.
    pub fn complete_mfa(&mut self, user_id: &str, code: &str, ip: &str, user_agent: &str) -> (r: AuthOutcome)
        requires
            old(self).wf(),
        ensures
            final(self).wf(),
            final(self).ttl() == old(self).ttl(),
            r matches AuthOutcome::Success { session, .. } ==> session.active
                && final(self).session_store().sessions().contains_key(token_key(session.token@)),
            exists|now: u64, uuid: Seq<char>, ar: AuthResult|
                #[trigger] mfa_login_effect(old(self).user_store(), final(self).user_store(), user_id@, code.spec_bytes(), now, uuid, ar)
                    && issued(
                    ar,
                    r,
                    email_of(old(self).user_store(), user_id@),
                    old(self).session_store(),
                    final(self).session_store(),
                    ip@,
                    user_agent@,
                    ttl_at(old(self).ttl(), now),
                    now,
                ),
    {
        let now = crate::clock::now_secs();
        let uuid = crate::ids::new_id();
        let r = self.complete_mfa_at(user_id, code, ip, user_agent, now, uuid.as_str());
        proof {
            let ar = choose|ar: AuthResult|
                mfa_login_effect(old(self).user_store(), self.user_store(), user_id@, code.spec_bytes(), now, uuid@, ar)
                    && #[trigger] issued(
                    ar,
                    r,
                    email_of(old(self).user_store(), user_id@),
                    old(self).session_store(),
                    self.session_store(),
                    ip@,
                    user_agent@,
                    ttl_at(old(self).ttl(), now),
                    now,
                );
            assert(mfa_login_effect(old(self).user_store(), self.user_store(), user_id@, code.spec_bytes(), now, uuid@, ar));
        }
        r
    }
}

impl Authenticator {
    /// Gives a user another role and ends all of that user's sessions, so
    /// the new role applies from the next login. `None` when there is no
    /// such user (nothing changes); else how many active sessions ended.
    pub fn change_role(&mut self, user_id: &str, role: UserRole) -> (r: Option<usize>)
        requires
            old(self).wf(),
        ensures
            final(self).wf(),
            final(self).ttl() == old(self).ttl(),
            r is Some == old(self).user_store().users().contains_key(user_id@),
            r is None ==> final(self).user_store().users() == old(self).user_store().users()
                && final(self).session_store() == old(self).session_store(),
            r matches Some(n) ==> ({
                let u0 = old(self).user_store().users()[user_id@];
                let d = drop_all(old(self).session_store().sessions(), old(self).session_store().user_list(user_id@));
                &&& final(self).user_store().users() == old(self).user_store().users().insert(user_id@, User { role: role, ..u0 })
                &&& final(self).session_store().index() == old(self).session_store().index().remove(user_id@)
                &&& final(self).session_store().sessions() == d.0
                &&& n == d.1
            }),
    {
        if !self.users.update_role(user_id, role) {
            return None;
        }
        Some(self.sessions.invalidate_all(user_id))
    }

    /// Turns a user's account off and ends all of that user's sessions.
    /// `None` when there is no such user (nothing changes); else how many
    /// active sessions ended.
    pub fn disable_account(&mut self, user_id: &str) -> (r: Option<usize>)
        requires
            old(self).wf(),
        ensures
            final(self).wf(),
            final(self).ttl() == old(self).ttl(),
            r is Some == old(self).user_store().users().contains_key(user_id@),
            r is None ==> final(self).user_store().users() == old(self).user_store().users()
                && final(self).session_store() == old(self).session_store(),
            r matches Some(n) ==> ({
                let u0 = old(self).user_store().users()[user_id@];
                let d = drop_all(old(self).session_store().sessions(), old(self).session_store().user_list(user_id@));
                &&& final(self).user_store().users() == old(self).user_store().users().insert(user_id@, User { enabled: false, ..u0 })
                &&& final(self).session_store().index() == old(self).session_store().index().remove(user_id@)
                &&& final(self).session_store().sessions() == d.0
                &&& n == d.1
            }),
    {
        if !self.users.disable_user(user_id) {
            return None;
        }
        Some(self.sessions.invalidate_all(user_id))
    }

    /// Ends all of a user's sessions; gives how many were active.
    pub fn logout_everywhere(&mut self, user_id: &str) -> (n: usize)
        ensures
            final(self).wf() == old(self).wf(),
            final(self).ttl() == old(self).ttl(),
            final(self).user_store() == old(self).user_store(),
            final(self).session_store().index() == old(self).session_store().index().remove(user_id@),
            final(self).session_store().sessions() == drop_all(old(self).session_store().sessions(), old(self).session_store().user_list(user_id@)).0,
            n == drop_all(old(self).session_store().sessions(), old(self).session_store().user_list(user_id@)).1,
    {
        self.sessions.invalidate_all(user_id)
    }
}

/// After a role change or a disabled account, none of the sessions the
/// user had listed is still stored: each must log in again.
pub proof fn law_account_change_ends_sessions(m: Map<Seq<char>, Session>, l: Seq<Seq<char>>)
    ensures
        forall|t: Seq<char>| #[trigger] l.contains(t) ==> !drop_all(m, l).0.contains_key(t),
        forall|t: Seq<char>| !l.contains(t) && #[trigger] m.contains_key(t) ==> drop_all(m, l).0.contains_key(t)
            && drop_all(m, l).0[t] == m[t],
    decreases l.len(),
{
    if l.len() > 0 {
        law_account_change_ends_sessions(m, l.drop_last());
        assert forall|t: Seq<char>| #[trigger] l.contains(t) implies !drop_all(m, l).0.contains_key(t) by {
            let m1 = drop_all(m, l.drop_last()).0;
            assert(drop_all(m, l).0 == m1.remove(l.last()));
            if t != l.last() {
                let j = choose|j: int| 0 <= j < l.len() && l[j] == t;
                assert(l.drop_last()[j] == t);
                assert(l.drop_last().contains(t));
                assert(!m1.contains_key(t));
            }
        }
        assert forall|t: Seq<char>| !l.contains(t) && #[trigger] m.contains_key(t) implies drop_all(m, l).0.contains_key(t)
            && drop_all(m, l).0[t] == m[t] by {
            if l.drop_last().contains(t) {
                let j = choose|j: int| 0 <= j < l.drop_last().len() && l.drop_last()[j] == t;
                assert(l[j] == t);
            }
            assert(l[l.len() - 1] != t);
        }
    }
}

/// A token handed out by a login has its session stored, open, for the
/// configured lifetime: when the token's digest is new to the user's list,
/// the session is live until it expires.
pub proof fn law_issued_token_has_session(
    ar: AuthResult,
    r: AuthOutcome,
    email: Seq<char>,
    before: SessionManager,
    after: SessionManager,
    ip: Seq<char>,
    user_agent: Seq<char>,
    ttl: u64,
    now: u64,
)
    requires
        issued(ar, r, email, before, after, ip, user_agent, ttl, now),
        now + ttl <= u64::MAX,
        before.max_sessions() >= 1,
        r matches AuthOutcome::Success { user_id, session, .. } && !before.user_list(user_id@).contains(token_key(session.token@)),
    ensures
        r matches AuthOutcome::Success { session, .. } && live(after.sessions(), now, token_key(session.token@))
            && after.sessions()[token_key(session.token@)].expires_at == now + ttl,
{
    if let AuthOutcome::Success { user_id, session, .. } = r {
        if let AuthResult::Success { user_id: u, token } = ar {
            let h = token_key(token@);
            let st = Session { active: true, ..after.sessions()[h] };
            let m1 = before.sessions().insert(h, st);
            crate::identity::sessions::law_new_session_kept(before.user_list(u@), m1, h, now, before.max_sessions());
        }
    }
}

} // verus!
