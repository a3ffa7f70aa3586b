//! Users, roles and password login with brute-force lockout.
//!
//! Users are kept by id with an email index. Passwords are stored as Argon2id
//! PHC strings; a login that fails counts against the email, and ten failures
//! within fifteen minutes lock the email out for the rest of the window.
use vstd::prelude::*;
use crate::store::VecMap;
use dashmap::DashMap;
use vstd::string::StringSliceAdditionalSpecFns;
use argon2::{password_hash::SaltString, Argon2, PasswordHash, PasswordHasher, PasswordVerifier};

verus! {

/// Failed logins that trigger a lockout.
pub const MAX_FAILED_ATTEMPTS: u32 = 10;

/// Length of the lockout window, in seconds.
pub const LOCKOUT_WINDOW_SECS: u64 = 900;

/// Roles, ordered by privilege except for `Custom`.
#[derive(Clone, Debug, PartialEq, Eq)]
pub enum UserRole {
    SuperAdmin,
    Admin,
    Developer,
    Viewer,
    Service,
    Custom(String),
}

/// The privilege level of a role; a custom role stands at Viewer's level, and
/// what it may do beyond that comes from its own permissions.
pub open spec fn role_level(r: UserRole) -> u8 {
    match r {
        UserRole::SuperAdmin => 100,
        UserRole::Admin => 80,
        UserRole::Developer => 60,
        UserRole::Service => 40,
        UserRole::Viewer => 20,
        UserRole::Custom(_) => 20,
    }
}

/// Whether a holder of `have` may do what `need` may do: a custom role is
/// satisfied only by the same custom role, a custom role satisfies no
/// built-in role, and built-in roles compare by level.
pub open spec fn role_satisfies(have: UserRole, need: UserRole) -> bool {
    match need {
        UserRole::Custom(n) => match have {
            UserRole::Custom(h) => h@ == n@,
            _ => false,
        },
        _ => match have {
            UserRole::Custom(_) => false,
            _ => role_level(have) >= role_level(need),
        },
    }
}

/// The name of a role; a custom role is named by its own text.
pub open spec fn role_name(r: UserRole) -> Seq<char> {
    match r {
        UserRole::SuperAdmin => "SuperAdmin"@,
        UserRole::Admin => "Admin"@,
        UserRole::Developer => "Developer"@,
        UserRole::Viewer => "Viewer"@,
        UserRole::Service => "Service"@,
        UserRole::Custom(s) => s@,
    }
}

/// The built-in role with the given name, if any.
pub open spec fn builtin_role_named(s: Seq<char>) -> Option<UserRole> {
    if s == "SuperAdmin"@ {
        Some(UserRole::SuperAdmin)
    } else if s == "Admin"@ {
        Some(UserRole::Admin)
    } else if s == "Developer"@ {
        Some(UserRole::Developer)
    } else if s == "Service"@ {
        Some(UserRole::Service)
    } else if s == "Viewer"@ {
        Some(UserRole::Viewer)
    } else {
        None
    }
}

impl UserRole {
    /// Hierarchy level: the larger, the more privileged; a custom role has
    /// Viewer's level.
    pub fn level(&self) -> (l: u8)
        ensures
            l == role_level(*self),
    {
        match self {
            UserRole::SuperAdmin => 100,
            UserRole::Admin => 80,
            UserRole::Developer => 60,
            UserRole::Service => 40,
            UserRole::Viewer => 20,
            UserRole::Custom(_) => 20,
        }
    }

    /// Whether this role may do what `required` may do.
    pub fn satisfies(&self, required: &UserRole) -> (b: bool)
        ensures
            b == role_satisfies(*self, *required),
    {
        if let UserRole::Custom(n) = required {
            return match self {
                UserRole::Custom(h) => {
                    let hv = crate::text::chars_of(h.as_str());
                    let nv = crate::text::chars_of(n.as_str());
                    crate::text::eq(hv.as_slice(), nv.as_slice())
                },
                _ => false,
            };
        }
        if let UserRole::Custom(_) = self {
            return false;
        }
        self.level() >= required.level()
    }

    /// A copy of the role.
    pub fn copy(&self) -> (r: Self)
        ensures
            r == *self,
    {
        match self {
            UserRole::SuperAdmin => UserRole::SuperAdmin,
            UserRole::Admin => UserRole::Admin,
            UserRole::Developer => UserRole::Developer,
            UserRole::Viewer => UserRole::Viewer,
            UserRole::Service => UserRole::Service,
            UserRole::Custom(s) => UserRole::Custom(s.clone()),
        }
    }

    /// The role's name.
    pub fn as_str(&self) -> (s: &str)
        ensures
            s@ == role_name(*self),
    {
        match self {
            UserRole::SuperAdmin => "SuperAdmin",
            UserRole::Admin => "Admin",
            UserRole::Developer => "Developer",
            UserRole::Viewer => "Viewer",
            UserRole::Service => "Service",
            UserRole::Custom(s) => s.as_str(),
        }
    }

    /// Parses one of the five built-in role names; other text is refused.
    pub fn parse_builtin(name: &str) -> (r: Option<UserRole>)
        ensures
            r == builtin_role_named(name@),
    {
        let v = crate::text::chars_of(name);
        if crate::text::eq_str(v.as_slice(), "SuperAdmin") {
            Some(UserRole::SuperAdmin)
        } else if crate::text::eq_str(v.as_slice(), "Admin") {
            Some(UserRole::Admin)
        } else if crate::text::eq_str(v.as_slice(), "Developer") {
            Some(UserRole::Developer)
        } else if crate::text::eq_str(v.as_slice(), "Service") {
            Some(UserRole::Service)
        } else if crate::text::eq_str(v.as_slice(), "Viewer") {
            Some(UserRole::Viewer)
        } else {
            None
        }
    }
}

/// Role privilege is a preorder on the built-in roles: every role satisfies
/// itself, and satisfaction is transitive.
pub proof fn law_role_preorder(a: UserRole, b: UserRole, c: UserRole)
    ensures
        role_satisfies(a, a),
        role_satisfies(a, b) && role_satisfies(b, c) ==> role_satisfies(a, c),
{
}

/// A custom role never satisfies a built-in role, and no built-in role
/// satisfies a custom one.
pub proof fn law_custom_roles_isolated(name: String, builtin: UserRole)
    requires
        !(builtin is Custom),
    ensures
        !role_satisfies(UserRole::Custom(name), builtin),
        !role_satisfies(builtin, UserRole::Custom(name)),
{
}

/// SuperAdmin satisfies every built-in role.
pub proof fn law_superadmin_satisfies_builtin(r: UserRole)
    requires
        !(r is Custom),
    ensures
        role_satisfies(UserRole::SuperAdmin, r),
{
}

/// A user account.
pub struct User {
    pub id: String,
    pub email: String,
    pub username: String,
    pub password_hash: String,
    pub role: UserRole,
    pub permissions: Vec<String>,
    pub created_at: u64,
    pub last_login: u64,
    pub login_count: u64,
    pub enabled: bool,
    pub mfa_enabled: bool,
    pub mfa_secret: Option<String>,
    pub metadata: std::collections::HashMap<String, String>,
}

/// The outcome of a login.
pub enum AuthResult {
    Success { user_id: String, token: String },
    /// Unknown email or wrong password: the two are not told apart.
    InvalidCredentials,
    AccountDisabled,
    MfaRequired { user_id: String },
    /// Too many failures: try again after this many seconds.
    LockedOut { retry_after_secs: u64 },
}

/// The failure record of one email.
#[derive(Clone, Copy, Debug, PartialEq, Eq, Structural)]
pub struct FailedAttempt {
    pub count: u32,
    pub first_failure_at: u64,
}

/// The lockout decision for a failure record at clock reading `now`:
/// `Some(seconds left)` while locked, `None` otherwise; `true` in the second
/// component when the expired record is to be cleared.
pub open spec fn lockout(fa: Option<FailedAttempt>, now: u64) -> (Option<u64>, bool) {
    match fa {
        None => (None, false),
        Some(f) => {
            let elapsed: int = if now >= f.first_failure_at {
                now - f.first_failure_at
            } else {
                0
            };
            if f.count < MAX_FAILED_ATTEMPTS {
                (None, false)
            } else if elapsed >= LOCKOUT_WINDOW_SECS {
                (None, true)
            } else {
                (Some((LOCKOUT_WINDOW_SECS - elapsed) as u64), false)
            }
        },
    }
}

/// The failure record after one more failure at `now`.
pub open spec fn after_failed_login(fa: Option<FailedAttempt>, now: u64) -> FailedAttempt {
    match fa {
        None => FailedAttempt { count: 1, first_failure_at: now },
        Some(f) => FailedAttempt {
            count: if f.count == u32::MAX {
                u32::MAX
            } else {
                (f.count + 1) as u32
            },
            ..f
        },
    }
}

/// The lockout check of one record.
pub fn check_lockout(fa: Option<FailedAttempt>, now: u64) -> (r: (Option<u64>, bool))
    ensures
        r == lockout(fa, now),
{
    match fa {
        None => (None, false),
        Some(f) => {
            if f.count < MAX_FAILED_ATTEMPTS {
                return (None, false);
            }
            let elapsed = now.saturating_sub(f.first_failure_at);
            if elapsed >= LOCKOUT_WINDOW_SECS {
                (None, true)
            } else {
                (Some(LOCKOUT_WINDOW_SECS - elapsed), false)
            }
        },
    }
}

/// The record after a failure.
pub fn count_failure(fa: Option<FailedAttempt>, now: u64) -> (r: FailedAttempt)
    ensures
        r == after_failed_login(fa, now),
{
    match fa {
        None => FailedAttempt { count: 1, first_failure_at: now },
        Some(f) => FailedAttempt { count: f.count.saturating_add(1), first_failure_at: f.first_failure_at },
    }
}

/// Lockout is bounded: a locked-out email is told to wait at most the window,
/// and ten failures inside the window always lock it.
pub proof fn law_lockout_within_window(f: FailedAttempt, now: u64)
    requires
        now >= f.first_failure_at,
    ensures
        lockout(Some(f), now).0 matches Some(w) ==> 0 < w <= LOCKOUT_WINDOW_SECS,
        f.count >= MAX_FAILED_ATTEMPTS && now - f.first_failure_at < LOCKOUT_WINDOW_SECS
            ==> lockout(Some(f), now).0 is Some,
        f.count < MAX_FAILED_ATTEMPTS ==> lockout(Some(f), now).0 is None,
{
}

/// `n` failures in a row, starting from no record, at the same instant.
pub open spec fn failures_from_clean(now: u64, n: nat) -> Option<FailedAttempt>
    decreases n,
{
    if n == 0 {
        None
    } else {
        Some(after_failed_login(failures_from_clean(now, (n - 1) as nat), now))
    }
}

/// Counting: after `n` failures from a clean record the count is `n`.
pub proof fn law_failures_counted(now: u64, n: nat)
    requires
        1 <= n <= u32::MAX,
    ensures
        failures_from_clean(now, n) == Some(FailedAttempt { count: n as u32, first_failure_at: now }),
    decreases n,
{
    if n > 1 {
        law_failures_counted(now, (n - 1) as nat);
        assert(failures_from_clean(now, n) == Some(after_failed_login(failures_from_clean(now, (n - 1) as nat), now)));
    } else {
        assert(failures_from_clean(now, 0) == None::<FailedAttempt>);
        assert(failures_from_clean(now, 1) == Some(after_failed_login(None, now)));
    }
}

/// Whether `stored` is an Argon2id PHC string that `password` matches.
pub uninterp spec fn argon2_verifies(password: Seq<char>, stored: Seq<char>) -> bool;

/// Argon2id verification (`argon2::PasswordVerifier::verify_password` after
/// `PasswordHash::new`): a stored value that does not parse as a PHC string is
/// refused; the outcome is named, not stated.
#[verifier::external_body]
fn argon2_verify(password: &str, stored: &str) -> (ok: bool)
    ensures
        ok == argon2_verifies(password@, stored@),
{
    match PasswordHash::new(stored) {
        Ok(parsed) => Argon2::default().verify_password(password.as_bytes(), &parsed).is_ok(),
        Err(_) => false,
    }
}

/// Argon2id hashing with a fresh random salt (`argon2::PasswordHasher`
/// with `SaltString::generate`). The salt drawn is not stated; what holds
/// whatever it is: the PHC string written starts `$argon2id$` (the default
/// algorithm's identifier) and verifies against the same password. With
/// the default parameters and a generated salt, the source's only error
/// path left is a password longer than `argon2::MAX_PWD_LEN` (2^32 - 1)
/// bytes (refused), so a shorter one is always hashed.
#[verifier::external_body]
fn argon2_hash(password: &str) -> (h: Option<String>)
    ensures
        h matches Some(s) ==> crate::text::has_prefix(s@, "$argon2id$"@) && argon2_verifies(password@, s@),
        h is Some <==> password.spec_bytes().len() <= 0xFFFF_FFFF,
{
    let salt = SaltString::generate(&mut rand::thread_rng());
    match Argon2::default().hash_password(password.as_bytes(), &salt) {
        Ok(h) => Some(h.to_string()),
        Err(_) => None,
    }
}

/// Whether a stored hash is accepted for a password: only Argon2 PHC
/// strings (starting with `$argon2`) are considered.
pub open spec fn password_ok(password: Seq<char>, stored: Seq<char>) -> bool {
    crate::text::has_prefix(stored, "$argon2"@) && argon2_verifies(password, stored)
}

/// Password verification: legacy (non-Argon2) hashes are refused.
pub fn verify_password(password: &str, stored: &str) -> (ok: bool)
    ensures
        ok == password_ok(password@, stored@),
{
    let sv = crate::text::chars_of(stored);
    let prefix = crate::text::chars_of("$argon2");
    if !crate::text::starts_with(sv.as_slice(), prefix.as_slice()) {
        return false;
    }
    argon2_verify(password, stored)
}

/// Password hashing with Argon2id; `None` only for a password longer than
/// Argon2 takes (2^32 - 1 bytes). A hash it gives is accepted by
/// `verify_password` for the same password.
pub fn hash_password(password: &str) -> (h: Option<String>)
    ensures
        h matches Some(s) ==> password_ok(password@, s@),
        h is Some <==> password.spec_bytes().len() <= 0xFFFF_FFFF,
{
    let h = argon2_hash(password);
    proof {
        reveal_strlit("$argon2id$");
        reveal_strlit("$argon2");
        if h is Some {
            let s = h->0@;
            assert(s.subrange(0, 7) =~= s.subrange(0, 10).subrange(0, 7));
            assert("$argon2id$"@.subrange(0, 7) =~= "$argon2"@);
            assert(crate::text::has_prefix(s, "$argon2"@));
        }
    }
    h
}

/// The constant-cost stand-in hash verified when the email is unknown, so
/// that both paths take the same time.
pub const DUMMY_ARGON2_HASH: &'static str = "$argon2id$v=19$m=19456,t=2,p=1$c29tZXNhbHRzb21lc2FsdA$Ck5kQ7BkVZx2g4Cv9b4GZ1QF5mHRT7FzfA8YV2W6cKw";

/// The login token for a fresh UUID: `xira_tok_` and the UUID without
/// its hyphens.
pub open spec fn token_for(uuid: Seq<char>) -> Seq<char> {
    "xira_tok_"@ + uuid.filter(|c: char| c != '-')
}

/// Builds a login token from a fresh UUID.
pub fn make_token(uuid: &str) -> (t: String)
    ensures
        t@ == token_for(uuid@),
{
    let u = crate::text::chars_of(uuid);
    let mut out = crate::text::chars_of("xira_tok_");
    let ghost head = out@;
    let mut i: usize = 0;
    while i < u.len()
        invariant
            i <= u@.len(),
            u@ == uuid@,
            head == "xira_tok_"@,
            out@ == head + u@.subrange(0, i as int).filter(|c: char| c != '-'),
        decreases u@.len() - i,
    {
        proof {
            reveal_with_fuel(Seq::filter, 1);
            assert(u@.subrange(0, i + 1).drop_last() =~= u@.subrange(0, i as int));
        }
        if u[i] != '-' {
            out.push(u[i]);
            assert(out@ =~= head + u@.subrange(0, i + 1).filter(|c: char| c != '-'));
        } else {
            assert(out@ =~= head + u@.subrange(0, i + 1).filter(|c: char| c != '-'));
        }
        i = i + 1;
    }
    assert(u@.subrange(0, u@.len() as int) =~= u@);
    crate::text::string_of(out.as_slice())
}

/// A user as listed.
pub struct UserSummary {
    pub id: String,
    pub email: String,
    pub username: String,
    pub role: UserRole,
    pub enabled: bool,
    pub created_at: u64,
    pub last_login: u64,
    pub login_count: u64,
    pub mfa_enabled: bool,
    pub permissions: Vec<String>,
}

/// Users by id, an email index, and failure records by email.
pub struct UserManager {
    users: VecMap<Vec<char>, User>,
    email_index: DashMap<String, String>,
    failed_attempts: DashMap<String, FailedAttempt>,
}

/// The entries of an email index: the user id under each email, by text.
pub uninterp spec fn email_map(m: DashMap<String, String>) -> Map<Seq<char>, Seq<char>>;

/// `DashMap::new`: an empty index.
#[verifier::external_body]
fn index_new() -> (r: DashMap<String, String>)
    ensures
        email_map(r).dom() == Set::<Seq<char>>::empty(),
{
    DashMap::new()
}

/// `DashMap::get` by the email's text (`String` borrows as `str`, and two
/// strings are the same key exactly when their texts are equal), the id
/// cloned out of the guard it gives (`String::clone` copies the text).
#[verifier::external_body]
fn index_get(m: &DashMap<String, String>, email: &str) -> (r: Option<String>)
    ensures
        r is Some == email_map(*m).contains_key(email@),
        r matches Some(id) ==> id@ == email_map(*m)[email@],
{
    match m.get(email) {
        Some(id) => Some(id.value().clone()),
        None => None,
    }
}

/// `DashMap::insert`: the id under `email` is set, the others kept.
#[verifier::external_body]
fn index_insert(m: &mut DashMap<String, String>, email: String, id: String)
    ensures
        email_map(*final(m)) == email_map(*old(m)).insert(email@, id@),
{
    m.insert(email, id);
}

/// The entries of a map of failure records, keyed by the email's text.
pub uninterp spec fn attempt_map(m: DashMap<String, FailedAttempt>) -> Map<Seq<char>, FailedAttempt>;

/// `DashMap::new`: no failure records.
#[verifier::external_body]
fn attempts_new() -> (r: DashMap<String, FailedAttempt>)
    ensures
        attempt_map(r).dom() == Set::<Seq<char>>::empty(),
{
    DashMap::new()
}

/// `DashMap::get` by the email's text (`String` borrows as `str`, and two
/// strings are the same key exactly when their texts are equal), the record
/// copied out of the guard it gives.
#[verifier::external_body]
fn attempts_get(m: &DashMap<String, FailedAttempt>, email: &str) -> (r: Option<FailedAttempt>)
    ensures
        r == (if attempt_map(*m).contains_key(email@) {
            Some(attempt_map(*m)[email@])
        } else {
            None::<FailedAttempt>
        }),
{
    match m.get(email) {
        Some(f) => Some(*f.value()),
        None => None,
    }
}

/// `DashMap::insert`: the record of `email` is set, the others kept.
#[verifier::external_body]
fn attempts_insert(m: &mut DashMap<String, FailedAttempt>, email: String, f: FailedAttempt)
    ensures
        attempt_map(*final(m)) == attempt_map(*old(m)).insert(email@, f),
{
    m.insert(email, f);
}

/// `DashMap::remove` by the email's text: its record is dropped, the others
/// kept.
#[verifier::external_body]
fn attempts_remove(m: &mut DashMap<String, FailedAttempt>, email: &str)
    ensures
        attempt_map(*final(m)) == attempt_map(*old(m)).remove(email@),
{
    m.remove(email);
}

/// Saturating increment.
pub open spec fn inc(x: u64) -> u64 {
    if x == u64::MAX {
        u64::MAX
    } else {
        (x + 1) as u64
    }
}

/// The entry under a key, if any.
pub open spec fn get_opt<K, V>(m: Map<K, V>, k: K) -> Option<V> {
    if m.contains_key(k) {
        Some(m[k])
    } else {
        None
    }
}

/// The failure records after a failed login of `email` at `now`.
pub open spec fn failed(f: Map<Seq<char>, FailedAttempt>, email: Seq<char>, now: u64) -> Map<Seq<char>, FailedAttempt> {
    f.insert(email, after_failed_login(get_opt(f, email), now))
}

/// Whether the user's stored seed accepts a code at `now`.
pub open spec fn mfa_code_ok(u: User, code: Seq<u8>, now: u64) -> bool {
    match u.mfa_secret {
        Some(sec) => crate::identity::mfa::MfaEngine::verify_totp_spec(sec@, code, now),
        None => false,
    }
}

/// A user after logging in at `now`.
pub open spec fn logged_in(u: User, now: u64) -> User {
    User { last_login: now, login_count: inc(u.login_count), ..u }
}

/// What a login attempt does to the store and answers: a locked-out email
/// is refused with the seconds left (an expired lock is cleared first); an
/// unknown email and a wrong password answer the same and count as a
/// failure; a disabled account is told so; a good password clears the
/// failures and asks for the second factor when MFA is on, otherwise it is
/// recorded as a login and a token is handed out.
pub open spec fn login_effect(
    before: UserManager,
    after: UserManager,
    email: Seq<char>,
    password: Seq<char>,
    now: u64,
    uuid: Seq<char>,
    r: AuthResult,
) -> bool {
    let lock = lockout(get_opt(before.failures(), email), now);
    let f0 = if lock.1 { before.failures().remove(email) } else { before.failures() };
    let user = before.user_by_email(email);
    if lock.0 is Some {
        &&& r == AuthResult::LockedOut { retry_after_secs: lock.0->0 }
        &&& after.users() == before.users()
        &&& after.failures() == before.failures()
    } else {
        match user {
            None => {
                &&& r is InvalidCredentials
                &&& after.users() == before.users()
                &&& after.failures() == failed(f0, email, now)
            },
            Some(u) => if !u.enabled {
                &&& r is AccountDisabled
                &&& after.users() == before.users()
                &&& after.failures() == f0
            } else if !password_ok(password, u.password_hash@) {
                &&& r is InvalidCredentials
                &&& after.users() == before.users()
                &&& after.failures() == failed(f0, email, now)
            } else if u.mfa_enabled {
                &&& r matches AuthResult::MfaRequired { user_id } && user_id@ == u.id@
                &&& after.users() == before.users()
                &&& after.failures() == f0.remove(email)
            } else {
                &&& r matches AuthResult::Success { user_id, token } && user_id@ == u.id@ && token@ == token_for(uuid)
                &&& after.users() == before.users().insert(u.id@, logged_in(u, now))
                &&& after.failures() == f0.remove(email)
            },
        }
    }
}

/// When the account is not locked out, an enabled user without a second
/// factor who gives a password the stored hash accepts is logged in, and
/// the failure count for the email is cleared.
pub proof fn law_right_password_logs_in(
    before: UserManager,
    after: UserManager,
    email: Seq<char>,
    password: Seq<char>,
    now: u64,
    uuid: Seq<char>,
    r: AuthResult,
)
    requires
        login_effect(before, after, email, password, now, uuid, r),
        lockout(get_opt(before.failures(), email), now).0 is None,
        before.user_by_email(email) matches Some(u) && u.enabled && !u.mfa_enabled && password_ok(password, u.password_hash@),
    ensures
        r matches AuthResult::Success { user_id, .. } && user_id@ == before.user_by_email(email)->0.id@,
        !after.failures().contains_key(email),
{
}

/// When the account is not locked out, a password the stored hash refuses
/// never logs in and leaves the accounts unchanged.
pub proof fn law_wrong_password_refused(
    before: UserManager,
    after: UserManager,
    email: Seq<char>,
    password: Seq<char>,
    now: u64,
    uuid: Seq<char>,
    r: AuthResult,
)
    requires
        login_effect(before, after, email, password, now, uuid, r),
        lockout(get_opt(before.failures(), email), now).0 is None,
        before.user_by_email(email) matches Some(u) && !password_ok(password, u.password_hash@),
    ensures
        !(r is Success),
        after.users() == before.users(),
{
}

/// What the second step of an MFA login does: an unknown user or a code
/// the seed refuses is told the credentials are invalid, a disabled account
/// is told so, and an accepted code is recorded as a login and answered
/// with a token.
pub open spec fn mfa_login_effect(
    before: UserManager,
    after: UserManager,
    user_id: Seq<char>,
    code: Seq<u8>,
    now: u64,
    uuid: Seq<char>,
    r: AuthResult,
) -> bool {
    if !before.users().contains_key(user_id) {
        r is InvalidCredentials && after.users() == before.users()
    } else {
        let u = before.users()[user_id];
        if !u.enabled {
            r is AccountDisabled && after.users() == before.users()
        } else if u.mfa_enabled && mfa_code_ok(u, code, now) {
            &&& r matches AuthResult::Success { user_id: uid, token } && uid@ == u.id@ && token@ == token_for(uuid)
            &&& after.users() == before.users().insert(user_id, logged_in(u, now))
        } else {
            r is InvalidCredentials && after.users() == before.users()
        }
    }
}

impl UserManager {
    /// The users, by id.
    pub closed spec fn users(&self) -> Map<Seq<char>, User> {
        self.users.map()
    }

    /// The email index: the id registered under each email.
    pub closed spec fn emails(&self) -> Map<Seq<char>, Seq<char>> {
        email_map(self.email_index)
    }

    /// The failure records, by email.
    pub closed spec fn failures(&self) -> Map<Seq<char>, FailedAttempt> {
        attempt_map(self.failed_attempts)
    }

    /// Every user is kept under its id, and the index maps each user's
    /// email to that user.
    pub closed spec fn wf(&self) -> bool {
        &&& forall|k: Seq<char>| #[trigger] self.users.map().contains_key(k) ==> self.users.map()[k].id@ == k
        &&& forall|e: Seq<char>| #[trigger] email_map(self.email_index).contains_key(e) ==> {
            let id = email_map(self.email_index)[e];
            self.users.map().contains_key(id) && self.users.map()[id].email@ == e
        }
    }

    pub fn new() -> (m: Self)
        ensures
            m.wf(),
            m.users() == Map::<Seq<char>, User>::empty(),
            m.emails() == Map::<Seq<char>, Seq<char>>::empty(),
            m.failures() == Map::<Seq<char>, FailedAttempt>::empty(),
    {
        let m = UserManager { users: VecMap::new(), email_index: index_new(), failed_attempts: attempts_new() };
        assert(m.emails() =~= Map::<Seq<char>, Seq<char>>::empty());
        assert(m.failures() =~= Map::<Seq<char>, FailedAttempt>::empty());
        m
    }

    /// The user registered under an email.
    pub open spec fn user_by_email(&self, email: Seq<char>) -> Option<User> {
        if self.emails().contains_key(email) && self.users().contains_key(self.emails()[email]) {
            Some(self.users()[self.emails()[email]])
        } else {
            None
        }
    }

    /// Registers an enabled user under `id` at `now`, with an already
    /// computed password hash; an email that is taken is refused.
    pub fn register_with(&mut self, email: String, username: String, password_hash: String, role: UserRole, id: String, now: u64) -> (r: Result<(), String>)
        requires
            old(self).wf(),
            !old(self).users().contains_key(id@),
        ensures
            final(self).wf(),
            final(self).failures() == old(self).failures(),
            old(self).emails().contains_key(email@) ==> (r matches Err(m) && m@ == "Email already registered"@) && final(self).users() == old(self).users() && final(self).emails() == old(self).emails(),
            !old(self).emails().contains_key(email@) ==> r is Ok && ({
                let u = final(self).users()[id@];
                &&& final(self).users() == old(self).users().insert(id@, u)
                &&& final(self).emails() == old(self).emails().insert(email@, id@)
                &&& u.id@ == id@ && u.email@ == email@ && u.username == username && u.password_hash == password_hash
                &&& u.role == role && u.permissions@.len() == 0 && u.created_at == now && u.last_login == 0
                &&& u.login_count == 0 && u.enabled && !u.mfa_enabled && u.mfa_secret is None
            }),
    {
        let ekey = crate::text::chars_of(email.as_str());
        if index_get(&self.email_index, email.as_str()).is_some() {
            return Err(crate::config::text("Email already registered"));
        }
        let ikey = crate::text::chars_of(id.as_str());
        let id_copy = crate::text::string_of(ikey.as_slice());
        let user = User {
            id,
            email,
            username,
            password_hash,
            role,
            permissions: Vec::new(),
            created_at: now,
            last_login: 0,
            login_count: 0,
            enabled: true,
            mfa_enabled: false,
            mfa_secret: None,
            metadata: std::collections::HashMap::new(),
        };
        let ghost u = user;
        let ghost old_users = self.users.map();
        let ghost old_index = email_map(self.email_index);
        self.users.insert(ikey, user);
        index_insert(&mut self.email_index, crate::text::string_of(ekey.as_slice()), id_copy);
        proof {
            assert(self.emails() =~= old(self).emails().insert(email@, id@));
            assert forall|e: Seq<char>| #[trigger] email_map(self.email_index).contains_key(e) implies {
                let i = email_map(self.email_index)[e];
                self.users.map().contains_key(i) && self.users.map()[i].email@ == e
            } by {
                if e != u.email@ {
                    let i = old_index[e];
                    assert(old_users.contains_key(i));
                    assert(i != u.id@);
                }
            }
        }
        Ok(())
    }

    /// Registers a user with a fresh id, hashing the password with Argon2id.
    pub fn register(&mut self, email: String, username: String, password: &str, role: UserRole) -> (r: Result<String, String>)
        requires
            old(self).wf(),
        ensures
            final(self).wf(),
            final(self).failures() == old(self).failures(),
            old(self).emails().contains_key(email@) ==> (r matches Err(m) && m@ == "Email already registered"@),
            r is Err ==> final(self).users() == old(self).users() && final(self).emails() == old(self).emails(),
            !old(self).emails().contains_key(email@) && password.spec_bytes().len() <= 0xFFFF_FFFF ==> (r is Ok || (
            r matches Err(m) && m@ == "user id already taken"@ && old(self).users().dom() != Set::<Seq<char>>::empty())),
            !old(self).emails().contains_key(email@) && password.spec_bytes().len() > 0xFFFF_FFFF ==> (r matches Err(m)
                && m@ == "password hashing failed"@),
            r matches Ok(id) ==> ({
                let u = final(self).users()[id@];
                &&& !old(self).users().contains_key(id@)
                &&& final(self).users() == old(self).users().insert(id@, u)
                &&& final(self).emails() == old(self).emails().insert(email@, id@)
                &&& u.id@ == id@ && u.email@ == email@ && u.username == username && u.role == role
                &&& u.permissions@.len() == 0 && u.last_login == 0 && u.login_count == 0
                &&& u.enabled && !u.mfa_enabled && u.mfa_secret is None
                &&& password_ok(password@, u.password_hash@)
            }),
    {
        if index_get(&self.email_index, email.as_str()).is_some() {
            return Err(crate::config::text("Email already registered"));
        }
        let hash = match hash_password(password) {
            Some(h) => h,
            None => {
                return Err(crate::config::text("password hashing failed"));
            },
        };
        let id = crate::ids::new_id();
        let ikey = crate::text::chars_of(id.as_str());
        if self.users.contains(&ikey) {
            proof {
                assert(old(self).users().contains_key(ikey@));
                assert(old(self).users().dom().contains(ikey@));
            }
            return Err(crate::config::text("user id already taken"));
        }
        let copy = crate::text::string_of(ikey.as_slice());
        let now = crate::clock::now_secs();
        match self.register_with(email, username, hash, role, id, now) {
            Ok(()) => Ok(copy),
            Err(e) => Err(e),
        }
    }

    fn record_failure(&mut self, key: Vec<char>, now: u64)
        ensures
            final(self).failures() == failed(old(self).failures(), key@, now),
            final(self).users() == old(self).users(),
            final(self).email_index == old(self).email_index,
    {
        let email = crate::text::string_of(key.as_slice());
        let prev = attempts_get(&self.failed_attempts, email.as_str());
        let next = count_failure(prev, now);
        attempts_insert(&mut self.failed_attempts, email, next);
    }

    /// A login at `now`, with `uuid` for the token. A locked-out email is
    /// refused with the seconds left (an expired lock is cleared first). An
    /// unknown email and a wrong password answer the same and count as a
    /// failure; the password is checked against a stand-in hash when the
    /// email is unknown. A disabled account is told so. A good password
    /// clears the failures and asks for the second factor when MFA is on;
    /// otherwise the login is recorded and a token handed out.
    pub fn authenticate_with(&mut self, email: &str, password: &str, now: u64, uuid: &str) -> (r: AuthResult)
        requires
            old(self).wf(),
        ensures
            final(self).wf(),
            login_effect(*old(self), *final(self), email@, password@, now, uuid@, r),
            final(self).emails() == old(self).emails(),
    {
        let key = crate::text::chars_of(email);
        let prev = attempts_get(&self.failed_attempts, email);
        let (locked, clear) = check_lockout(prev, now);
        match locked {
            Some(retry) => {
                return AuthResult::LockedOut { retry_after_secs: retry };
            },
            None => {},
        }
        if clear {
            attempts_remove(&mut self.failed_attempts, email);
        }
        let uid: Option<Vec<char>> = match index_get(&self.email_index, email) {
            Some(id) => Some(crate::text::chars_of(id.as_str())),
            None => None,
        };
        let pos: Option<usize> = match &uid {
            Some(k) => self.users.position(k),
            None => None,
        };
        match pos {
            None => {
                let _ = verify_password(password, DUMMY_ARGON2_HASH);
                proof {
                    if email_map(self.email_index).contains_key(key@) {
                        assert(self.users.map().contains_key(email_map(self.email_index)[key@]));
                    }
                }
                self.record_failure(key, now);
                AuthResult::InvalidCredentials
            },
            Some(i) => {
                let ghost keys = self.users.keys();
                let ghost before = self.users.map();
                let (k, mut user) = self.users.take_at(i);
                let ok = verify_password(password, user.password_hash.as_str());
                if !user.enabled {
                    self.users.insert_at(i, k, user);
                    proof {
                        assert(self.users.map() =~= before);
                    }
                    return AuthResult::AccountDisabled;
                }
                if !ok {
                    self.users.insert_at(i, k, user);
                    proof {
                        assert(self.users.map() =~= before);
                    }
                    self.record_failure(key, now);
                    return AuthResult::InvalidCredentials;
                }
                attempts_remove(&mut self.failed_attempts, email);
                if user.mfa_enabled {
                    let id = crate::text::string_of(crate::text::chars_of(user.id.as_str()).as_slice());
                    self.users.insert_at(i, k, user);
                    proof {
                        assert(self.users.map() =~= before);
                    }
                    return AuthResult::MfaRequired { user_id: id };
                }
                let ghost u0 = user;
                user.last_login = now;
                user.login_count = user.login_count.saturating_add(1);
                assert(user == logged_in(u0, now));
                let id = crate::text::string_of(crate::text::chars_of(user.id.as_str()).as_slice());
                self.users.insert_at(i, k, user);
                proof {
                    assert(self.users.map() =~= before.insert(u0.id@, logged_in(u0, now)));
                    assert forall|e: Seq<char>| #[trigger] email_map(self.email_index).contains_key(e) implies {
                        let j = email_map(self.email_index)[e];
                        self.users.map().contains_key(j) && self.users.map()[j].email@ == e
                    } by {
                        assert(before.contains_key(email_map(self.email_index)[e]));
                    }
                }
                AuthResult::Success { user_id: id, token: make_token(uuid) }
            },
        }
    }


    /// Replaces the user at position `i` by one with the same id and email.
    fn put_back(&mut self, i: usize, k: Vec<char>, u: User, Ghost(before): Ghost<Map<Seq<char>, User>>)
        requires
            i <= old(self).users.keys().len(),
            before.contains_key(k@),
            old(self).users.map() == before.remove(k@),
            before[k@].id@ == u.id@,
            before[k@].email@ == u.email@,
            forall|x: Seq<char>| #[trigger] before.contains_key(x) ==> before[x].id@ == x,
            forall|e: Seq<char>| #[trigger] email_map(old(self).email_index).contains_key(e) ==> {
                let id = email_map(old(self).email_index)[e];
                before.contains_key(id) && before[id].email@ == e
            },
        ensures
            final(self).wf(),
            final(self).users() == before.insert(k@, u),
            final(self).email_index == old(self).email_index,
            final(self).failed_attempts == old(self).failed_attempts,
    {
        self.users.insert_at(i, k, u);
        proof {
            assert(self.users.map() =~= before.insert(k@, u));
        }
    }

    /// Finds a user by id and takes it out of the store.
    fn take_user(&mut self, id: &str) -> (r: Option<(usize, Vec<char>, User)>)
        requires
            old(self).wf(),
        ensures
            final(self).email_index == old(self).email_index,
            final(self).failed_attempts == old(self).failed_attempts,
            match r {
                None => !old(self).users().contains_key(id@) && *final(self) == *old(self),
                Some(t) => {
                    &&& old(self).users().contains_key(id@)
                    &&& t.1@ == id@
                    &&& t.2 == old(self).users()[id@]
                    &&& t.0 <= final(self).users.keys().len()
                    &&& final(self).users.map() == old(self).users().remove(id@)
                },
            },
    {
        let key = crate::text::chars_of(id);
        match self.users.position(&key) {
            None => None,
            Some(i) => {
                let (k, u) = self.users.take_at(i);
                Some((i, k, u))
            },
        }
    }

    /// Logs in at the current clock reading with a fresh token.
    pub fn authenticate(&mut self, email: &str, password: &str) -> (r: AuthResult)
        requires
            old(self).wf(),
        ensures
            final(self).wf(),
            final(self).emails() == old(self).emails(),
            exists|now: u64, uuid: Seq<char>| #[trigger] login_effect(*old(self), *final(self), email@, password@, now, uuid, r),
    {
        let now = crate::clock::now_secs();
        let uuid = crate::ids::new_id();
        self.authenticate_with(email, password, now, uuid.as_str())
    }

    /// The user with this id.
    pub fn get_user(&self, id: &str) -> (r: Option<&User>)
        ensures
            match r {
                Some(u) => self.users().contains_key(id@) && *u == self.users()[id@],
                None => !self.users().contains_key(id@),
            },
    {
        let key = crate::text::chars_of(id);
        self.users.get(&key)
    }

    /// The role of the user with this id.
    pub fn user_role(&self, id: &str) -> (r: Option<UserRole>)
        ensures
            match r {
                Some(role) => self.users().contains_key(id@) && role == self.users()[id@].role,
                None => !self.users().contains_key(id@),
            },
    {
        match self.get_user(id) {
            Some(u) => Some(u.role.copy()),
            None => None,
        }
    }

    /// Turns a user's account off; tells whether the user exists.
    pub fn disable_user(&mut self, id: &str) -> (found: bool)
        requires
            old(self).wf(),
        ensures
            final(self).wf(),
            found == old(self).users().contains_key(id@),
            found ==> final(self).users() == old(self).users().insert(id@, User { enabled: false, ..old(self).users()[id@] }),
            !found ==> final(self).users() == old(self).users(),
            final(self).emails() == old(self).emails(),
            final(self).failures() == old(self).failures(),
    {
        let ghost before = self.users.map();
        match self.take_user(id) {
            None => false,
            Some((i, k, mut u)) => {
                u.enabled = false;
                self.put_back(i, k, u, Ghost(before));
                true
            },
        }
    }

    /// Sets a user's role; tells whether the user exists.
    pub fn update_role(&mut self, id: &str, role: UserRole) -> (found: bool)
        requires
            old(self).wf(),
        ensures
            final(self).wf(),
            found == old(self).users().contains_key(id@),
            found ==> final(self).users() == old(self).users().insert(id@, User { role: role, ..old(self).users()[id@] }),
            !found ==> final(self).users() == old(self).users(),
            final(self).emails() == old(self).emails(),
            final(self).failures() == old(self).failures(),
    {
        let ghost before = self.users.map();
        match self.take_user(id) {
            None => false,
            Some((i, k, mut u)) => {
                u.role = role;
                self.put_back(i, k, u, Ghost(before));
                true
            },
        }
    }

    /// Grants a permission once; tells whether the user exists.
    pub fn add_permission(&mut self, id: &str, permission: String) -> (found: bool)
        requires
            old(self).wf(),
        ensures
            final(self).wf(),
            found == old(self).users().contains_key(id@),
            found ==> {
                let u0 = old(self).users()[id@];
                let u1 = final(self).users()[id@];
                &&& final(self).users() == old(self).users().insert(id@, u1)
                &&& u1 == User { permissions: u1.permissions, ..u0 }
                &&& u1.permissions@.map_values(|p: String| p@) == if u0.permissions@.map_values(|p: String| p@).contains(permission@) {
                    u0.permissions@.map_values(|p: String| p@)
                } else {
                    u0.permissions@.map_values(|p: String| p@).push(permission@)
                }
            },
            !found ==> final(self).users() == old(self).users(),
            final(self).emails() == old(self).emails(),
            final(self).failures() == old(self).failures(),
    {
        let ghost before = self.users.map();
        match self.take_user(id) {
            None => false,
            Some((i, k, mut u)) => {
                let ghost ps = u.permissions@.map_values(|p: String| p@);
                let pc = crate::text::chars_of(permission.as_str());
                let mut present = false;
                let mut j: usize = 0;
                while j < u.permissions.len()
                    invariant
                        j <= u.permissions@.len(),
                        pc@ == permission@,
                        ps == u.permissions@.map_values(|p: String| p@),
                        present == exists|q: int| 0 <= q < j && ps[q] == permission@,
                    decreases u.permissions@.len() - j,
                {
                    assert(ps[j as int] == u.permissions@[j as int]@);
                    if crate::text::eq_str(pc.as_slice(), u.permissions[j].as_str()) {
                        present = true;
                    }
                    j = j + 1;
                }
                let ghost u0 = u;
                if !present {
                    u.permissions.push(permission);
                    assert(u.permissions@.map_values(|p: String| p@) =~= ps.push(pc@));
                }
                self.put_back(i, k, u, Ghost(before));
                true
            },
        }
    }

    /// Whether a user holds a permission; a super admin holds them all.
    pub fn has_permission(&self, id: &str, permission: &str) -> (r: bool)
        ensures
            r == (self.users().contains_key(id@) && (self.users()[id@].permissions@.map_values(|p: String| p@).contains(
                permission@,
            ) || self.users()[id@].role == UserRole::SuperAdmin)),
    {
        match self.get_user(id) {
            None => false,
            Some(u) => {
                let ghost ps = u.permissions@.map_values(|p: String| p@);
                let pc = crate::text::chars_of(permission);
                let mut j: usize = 0;
                while j < u.permissions.len()
                    invariant
                        j <= u.permissions@.len(),
                        pc@ == permission@,
                        ps == u.permissions@.map_values(|p: String| p@),
                        self.users().contains_key(id@),
                        *u == self.users()[id@],
                        forall|q: int| 0 <= q < j ==> ps[q] != permission@,
                    decreases u.permissions@.len() - j,
                {
                    assert(ps[j as int] == u.permissions@[j as int]@);
                    if crate::text::eq_str(pc.as_slice(), u.permissions[j].as_str()) {
                        assert(ps[j as int] == permission@);
                        assert(ps.contains(permission@));
                        return true;
                    }
                    j = j + 1;
                }
                match u.role {
                    UserRole::SuperAdmin => true,
                    _ => false,
                }
            },
        }
    }

    /// Turns MFA off and forgets the seed; tells whether the user exists.
    pub fn disable_mfa(&mut self, user_id: &str) -> (found: bool)
        requires
            old(self).wf(),
        ensures
            final(self).wf(),
            found == old(self).users().contains_key(user_id@),
            found ==> final(self).users() == old(self).users().insert(
                user_id@,
                User { mfa_enabled: false, mfa_secret: None, ..old(self).users()[user_id@] },
            ),
            !found ==> final(self).users() == old(self).users(),
            final(self).emails() == old(self).emails(),
    {
        let ghost before = self.users.map();
        match self.take_user(user_id) {
            None => false,
            Some((i, k, mut u)) => {
                u.mfa_enabled = false;
                u.mfa_secret = None;
                self.put_back(i, k, u, Ghost(before));
                true
            },
        }
    }

    /// Starts MFA enrollment: a fresh seed is stored (MFA stays off until
    /// confirmed) and returned with its provisioning URL.
    pub fn start_mfa_enrollment(&mut self, user_id: &str) -> (r: Result<(String, String), String>)
        requires
            old(self).wf(),
        ensures
            final(self).wf(),
            final(self).emails() == old(self).emails(),
            !old(self).users().contains_key(user_id@) ==> (r matches Err(m) && m@ == "user not found"@) && final(self).users() == old(self).users(),
            old(self).users().contains_key(user_id@) ==> (r matches Ok(p) && {
                let u0 = old(self).users()[user_id@];
                &&& final(self).users() == old(self).users().insert(user_id@, User { mfa_secret: final(self).users()[user_id@].mfa_secret, ..u0 })
                &&& final(self).users()[user_id@].mfa_secret matches Some(sec) && sec@ == p.0@
                &&& p.1@ == "otpauth://totp/XIRA:"@ + u0.email@ + "?secret="@ + p.0@ + "&issuer=XIRA&digits=6&period=30"@
            }),
    {
        let ghost before = self.users.map();
        match self.take_user(user_id) {
            None => Err(crate::config::text("user not found")),
            Some((i, k, mut u)) => {
                let secret = crate::identity::mfa::MfaEngine::generate_secret();
                let qr = crate::identity::mfa::MfaEngine::generate_qr_url(u.email.as_str(), secret.as_str());
                let copy = crate::text::string_of(crate::text::chars_of(secret.as_str()).as_slice());
                u.mfa_secret = Some(secret);
                self.put_back(i, k, u, Ghost(before));
                Ok((copy, qr))
            },
        }
    }

    /// Confirms MFA enrollment with a code at clock reading `now`: a code
    /// that the stored seed accepts turns MFA on.
    pub fn verify_mfa_setup_at(&mut self, user_id: &str, code: &str, now: u64) -> (ok: bool)
        requires
            old(self).wf(),
        ensures
            final(self).wf(),
            final(self).emails() == old(self).emails(),
            ok == (old(self).users().contains_key(user_id@) && mfa_code_ok(old(self).users()[user_id@], code.spec_bytes(), now)),
            ok ==> final(self).users() == old(self).users().insert(user_id@, User { mfa_enabled: true, ..old(self).users()[user_id@] }),
            !ok ==> final(self).users() == old(self).users(),
    {
        let ghost before = self.users.map();
        match self.take_user(user_id) {
            None => false,
            Some((i, k, mut u)) => {
                let good = match &u.mfa_secret {
                    None => false,
                    Some(sec) => crate::identity::mfa::MfaEngine::verify_totp_at(sec.as_str(), code, now),
                };
                if good {
                    u.mfa_enabled = true;
                }
                self.put_back(i, k, u, Ghost(before));
                proof {
                    if !good {
                        assert(self.users.map() =~= before);
                    }
                }
                good
            },
        }
    }

    /// The second step of an MFA login at `now`, with `uuid` for the token:
    /// an enabled user with MFA on and a code the seed accepts is logged in.
    pub fn complete_mfa_login_with(&mut self, user_id: &str, code: &str, now: u64, uuid: &str) -> (r: AuthResult)
        requires
            old(self).wf(),
        ensures
            final(self).wf(),
            final(self).emails() == old(self).emails(),
            mfa_login_effect(*old(self), *final(self), user_id@, code.spec_bytes(), now, uuid@, r),
    {
        let ghost before = self.users.map();
        match self.take_user(user_id) {
            None => AuthResult::InvalidCredentials,
            Some((i, k, mut u)) => {
                if !u.enabled {
                    self.put_back(i, k, u, Ghost(before));
                    assert(self.users.map() =~= before);
                    return AuthResult::AccountDisabled;
                }
                let good = u.mfa_enabled && match &u.mfa_secret {
                    None => false,
                    Some(sec) => crate::identity::mfa::MfaEngine::verify_totp_at(sec.as_str(), code, now),
                };
                if !good {
                    self.put_back(i, k, u, Ghost(before));
                    assert(self.users.map() =~= before);
                    return AuthResult::InvalidCredentials;
                }
                let ghost u0 = u;
                u.last_login = now;
                u.login_count = u.login_count.saturating_add(1);
                assert(u == logged_in(u0, now));
                let id = crate::text::string_of(crate::text::chars_of(u.id.as_str()).as_slice());
                self.put_back(i, k, u, Ghost(before));
                AuthResult::Success { user_id: id, token: make_token(uuid) }
            },
        }
    }

    /// Number of users.
    pub fn user_count(&self) -> (n: usize)
        ensures
            n == self.users().len(),
    {
        let n = self.users.len();
        proof {
            crate::store::lemma_dom_len(self.users.keys(), self.users.map());
        }
        n
    }


    /// `verify_mfa_setup_at` at the current clock reading.
    pub fn verify_mfa_setup(&mut self, user_id: &str, code: &str) -> (ok: bool)
        requires
            old(self).wf(),
        ensures
            final(self).wf(),
            final(self).emails() == old(self).emails(),
            !ok ==> final(self).users() == old(self).users(),
            ok ==> final(self).users() == old(self).users().insert(user_id@, User { mfa_enabled: true, ..old(self).users()[user_id@] }),
            exists|now: u64| ok == (old(self).users().contains_key(user_id@) && #[trigger] mfa_code_ok(
                old(self).users()[user_id@],
                code.spec_bytes(),
                now,
            )),
    {
        let now = crate::clock::now_secs();
        let ok = self.verify_mfa_setup_at(user_id, code, now);
        let ghost c = mfa_code_ok(old(self).users()[user_id@], code.spec_bytes(), now);
        assert(ok == (old(self).users().contains_key(user_id@) && c));
        ok
    }

    /// `complete_mfa_login_with` at the current clock reading, with a fresh token.
    pub fn complete_mfa_login(&mut self, user_id: &str, code: &str) -> (r: AuthResult)
        requires
            old(self).wf(),
        ensures
            final(self).wf(),
            final(self).emails() == old(self).emails(),
            !old(self).users().contains_key(user_id@) ==> r is InvalidCredentials,
            exists|now: u64, uuid: Seq<char>| #[trigger] mfa_login_effect(*old(self), *final(self), user_id@, code.spec_bytes(), now, uuid, r),
    {
        let now = crate::clock::now_secs();
        let uuid = crate::ids::new_id();
        self.complete_mfa_login_with(user_id, code, now, uuid.as_str())
    }

    /// The users without their password hashes and seeds, in id order.
    pub fn list_users(&self) -> (r: Vec<UserSummary>)
        requires
            self.wf(),
        ensures
            r@.len() == self.users().len(),
            forall|k: int| 0 <= k < r@.len() ==> {
                let s = #[trigger] r@[k];
                &&& self.users().contains_key(s.id@)
                &&& s.email@ == self.users()[s.id@].email@
                &&& s.role == self.users()[s.id@].role
                &&& s.enabled == self.users()[s.id@].enabled
                &&& s.mfa_enabled == self.users()[s.id@].mfa_enabled
                &&& s.login_count == self.users()[s.id@].login_count
            },
    {
        let n = self.users.len();
        proof {
            crate::store::lemma_dom_len(self.users.keys(), self.users.map());
        }
        let mut r: Vec<UserSummary> = Vec::new();
        let mut i: usize = 0;
        while i < n
            invariant
                i <= n,
                n == self.users.keys().len(),
                r@.len() == i,
                forall|k: Seq<char>| #[trigger] self.users.map().contains_key(k) ==> self.users.map()[k].id@ == k,
                forall|k: int| 0 <= k < r@.len() ==> {
                    let s = #[trigger] r@[k];
                    &&& self.users().contains_key(s.id@)
                    &&& s.email@ == self.users()[s.id@].email@
                    &&& s.role == self.users()[s.id@].role
                    &&& s.enabled == self.users()[s.id@].enabled
                    &&& s.mfa_enabled == self.users()[s.id@].mfa_enabled
                    &&& s.login_count == self.users()[s.id@].login_count
                },
            decreases n - i,
        {
            let (key, u) = self.users.entry_at(i);
            let mut perms: Vec<String> = Vec::new();
            let mut j: usize = 0;
            while j < u.permissions.len()
                decreases u.permissions@.len() - j,
            {
                perms.push(u.permissions[j].clone());
                j = j + 1;
            }
            r.push(UserSummary {
                id: crate::text::string_of(key.as_slice()),
                email: crate::text::string_of(crate::text::chars_of(u.email.as_str()).as_slice()),
                username: crate::text::string_of(crate::text::chars_of(u.username.as_str()).as_slice()),
                role: u.role.copy(),
                enabled: u.enabled,
                created_at: u.created_at,
                last_login: u.last_login,
                login_count: u.login_count,
                mfa_enabled: u.mfa_enabled,
                permissions: perms,
            });
            i = i + 1;
        }
        r
    }

}

} // verus!
