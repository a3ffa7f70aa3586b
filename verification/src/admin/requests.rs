//! Request bodies of the admin API with the defaults of their optional
//! fields, and the decisions the handlers take on them: whether a user may
//! be created and with which role, and which severity or status a name
//! stands for.
use vstd::prelude::*;
use crate::text::{chars_of, eq_str};
use crate::config::text;
use crate::identity::users::{UserRole, builtin_role_named};
use crate::ops::incidents::{Severity, IncidentStatus};

verus! {

/// Body of a user creation.
pub struct CreateUserRequest {
    pub email: String,
    pub username: String,
    pub password: String,
    pub role: String,
}

/// Body of a login.
pub struct LoginRequest {
    pub email: String,
    pub password: String,
}

/// Body of a role change.
pub struct UpdateRoleRequest {
    pub role: String,
}

/// Body of an MFA enrollment check.
pub struct MfaCodeRequest {
    pub code: String,
}

/// Body of the second step of an MFA login.
pub struct MfaLoginRequest {
    pub user_id: String,
    pub code: String,
}

/// Body of a cron job creation.
pub struct CreateCronJobRequest {
    pub name: String,
    pub url: String,
    pub method: String,
    pub interval_secs: u64,
}

/// Body of an incident creation.
pub struct CreateIncidentRequest {
    pub title: String,
    pub severity: String,
    pub services: Vec<String>,
}

/// Body of an incident update.
pub struct UpdateIncidentRequest {
    pub message: String,
    pub author: String,
    pub status: Option<String>,
}

/// Body of a feature flag creation.
pub struct CreateFlagRequest {
    pub name: String,
    pub description: String,
    pub enabled: bool,
    pub percentage: u32,
}

/// Body of a change-data-capture watcher creation.
pub struct CreateWatcherRequest {
    pub endpoint: String,
    pub webhook_url: String,
}

/// Body of a custom WAF rule.
pub struct AddWafRuleRequest {
    pub pattern: String,
    pub label: String,
}

/// Body of a token introspection.
pub struct IntrospectRequest {
    pub token: String,
}

/// Body of a mesh registration.
pub struct MeshRegisterRequest {
    pub name: String,
    pub sidecar_port: u16,
    pub mtls: bool,
    pub tags: Vec<String>,
}

/// The role of a user created without one.
pub fn default_role() -> (s: String)
    ensures
        s@ == "Viewer"@,
{
    text("Viewer")
}

/// The name of a cron job created without one.
pub fn default_job_name() -> (s: String)
    ensures
        s@ == "unnamed"@,
{
    text("unnamed")
}

/// The method of a cron job created without one.
pub fn default_job_method() -> (s: String)
    ensures
        s@ == "GET"@,
{
    text("GET")
}

/// The interval of a cron job created without one, in seconds.
pub fn default_job_interval() -> (n: u64)
    ensures
        n == 60,
{
    60
}

/// The title of an incident created without one.
pub fn default_incident_title() -> (s: String)
    ensures
        s@ == "Untitled"@,
{
    text("Untitled")
}

/// The severity name of an incident created without one.
pub fn default_incident_severity() -> (s: String)
    ensures
        s@ == "Minor"@,
{
    text("Minor")
}

/// The author of an incident update without one.
pub fn default_author() -> (s: String)
    ensures
        s@ == "admin"@,
{
    text("admin")
}

/// The rollout percentage of a flag created without one.
pub fn default_percentage() -> (n: u32)
    ensures
        n == 100,
{
    100
}

/// Why a user creation is refused.
#[derive(Debug)]
pub enum CreateUserError {
    /// Registration is switched off.
    RegistrationDisabled,
    /// The password is shorter, in bytes, than the minimum given.
    PasswordTooShort(usize),
    /// The email or the username is empty.
    MissingFields,
    /// The role is not one of the five built-in ones.
    UnknownRole(String),
}

impl CreateUserError {
    /// The message sent back with the refusal.
    pub fn message(&self) -> (m: String)
        ensures
            match self {
                CreateUserError::RegistrationDisabled => m@ == "Registration is disabled"@,
                CreateUserError::PasswordTooShort(n) => m@ == "Password must be at least "@ + crate::fmt::decimal(
                    *n as nat,
                ) + " characters"@,
                CreateUserError::MissingFields => m@ == "email and username are required"@,
                CreateUserError::UnknownRole(r) => m@ == "Unknown role: "@ + r@,
            },
    {
        match self {
            CreateUserError::RegistrationDisabled => text("Registration is disabled"),
            CreateUserError::PasswordTooShort(n) => {
                let a = crate::text::concat(
                    chars_of("Password must be at least ").as_slice(),
                    crate::fmt::decimal_text(*n as u64).as_slice(),
                );
                let b = crate::text::concat(a.as_slice(), chars_of(" characters").as_slice());
                crate::text::string_of(b.as_slice())
            },
            CreateUserError::MissingFields => text("email and username are required"),
            CreateUserError::UnknownRole(r) => {
                let a = crate::text::concat(chars_of("Unknown role: ").as_slice(), chars_of(r.as_str()).as_slice());
                crate::text::string_of(a.as_slice())
            },
        }
    }
}

/// The number of bytes of a text in UTF-8.
pub open spec fn byte_len(s: Seq<char>) -> nat {
    vstd::utf8::encode_utf8(s).len()
}

/// The checks before a user is created, in order: registration must be on,
/// the password at least `min_password_len` bytes long, email and username
/// present, and the role one of the built-in ones; the role is given back.
pub open spec fn user_creation(
    req: CreateUserRequest,
    registration_enabled: bool,
    min_password_len: usize,
) -> Result<UserRole, CreateUserError> {
    if !registration_enabled {
        Err(CreateUserError::RegistrationDisabled)
    } else if byte_len(req.password@) < min_password_len {
        Err(CreateUserError::PasswordTooShort(min_password_len))
    } else if req.email@.len() == 0 || req.username@.len() == 0 {
        Err(CreateUserError::MissingFields)
    } else {
        match builtin_role_named(req.role@) {
            Some(r) => Ok(r),
            None => Err(CreateUserError::UnknownRole(req.role)),
        }
    }
}

/// Decides whether a user may be created from this body.
pub fn check_create_user(req: &CreateUserRequest, registration_enabled: bool, min_password_len: usize) -> (r: Result<
    UserRole,
    CreateUserError,
>)
    requires
        byte_len(req.password@) <= usize::MAX,
    ensures
        match (r, user_creation(*req, registration_enabled, min_password_len)) {
            (Ok(a), Ok(b)) => a == b,
            (Err(CreateUserError::UnknownRole(a)), Err(CreateUserError::UnknownRole(b))) => a@ == b@,
            (Err(a), Err(b)) => !(a is UnknownRole) && a == b,
            _ => false,
        },
{
    if !registration_enabled {
        return Err(CreateUserError::RegistrationDisabled);
    }
    if req.password.as_str().len() < min_password_len {
        return Err(CreateUserError::PasswordTooShort(min_password_len));
    }
    if chars_of(req.email.as_str()).len() == 0 || chars_of(req.username.as_str()).len() == 0 {
        return Err(CreateUserError::MissingFields);
    }
    match UserRole::parse_builtin(req.role.as_str()) {
        Some(role) => Ok(role),
        None => Err(CreateUserError::UnknownRole(text(req.role.as_str()))),
    }
}

/// Whether a role may administer others (and is audited when granted).
pub fn is_elevated(role: &UserRole) -> (r: bool)
    ensures
        r == (*role is SuperAdmin || *role is Admin),
{
    match role {
        UserRole::SuperAdmin | UserRole::Admin => true,
        _ => false,
    }
}

/// The severity a name stands for; unknown names are minor.
pub open spec fn severity_named(s: Seq<char>) -> Severity {
    if s == "Critical"@ {
        Severity::Critical
    } else if s == "Major"@ {
        Severity::Major
    } else if s == "Info"@ {
        Severity::Info
    } else {
        Severity::Minor
    }
}

/// The severity of an incident body.
pub fn incident_severity(name: &str) -> (s: Severity)
    ensures
        s == severity_named(name@),
{
    let v = chars_of(name);
    if eq_str(v.as_slice(), "Critical") {
        Severity::Critical
    } else if eq_str(v.as_slice(), "Major") {
        Severity::Major
    } else if eq_str(v.as_slice(), "Info") {
        Severity::Info
    } else {
        Severity::Minor
    }
}

/// The status a name stands for; unknown names mean still investigating.
pub open spec fn status_named(s: Seq<char>) -> IncidentStatus {
    if s == "Identified"@ {
        IncidentStatus::Identified
    } else if s == "Monitoring"@ {
        IncidentStatus::Monitoring
    } else if s == "Resolved"@ {
        IncidentStatus::Resolved
    } else {
        IncidentStatus::Investigating
    }
}

/// The status of an incident update.
pub fn incident_status(name: &str) -> (s: IncidentStatus)
    ensures
        s == status_named(name@),
{
    let v = chars_of(name);
    if eq_str(v.as_slice(), "Identified") {
        IncidentStatus::Identified
    } else if eq_str(v.as_slice(), "Monitoring") {
        IncidentStatus::Monitoring
    } else if eq_str(v.as_slice(), "Resolved") {
        IncidentStatus::Resolved
    } else {
        IncidentStatus::Investigating
    }
}

/// A login body names both an email and a password.
pub fn login_fields_present(req: &LoginRequest) -> (r: bool)
    ensures
        r == (req.email@.len() > 0 && req.password@.len() > 0),
{
    chars_of(req.email.as_str()).len() > 0 && chars_of(req.password.as_str()).len() > 0
}

} // verus!
