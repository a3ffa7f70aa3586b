//! The CLI's commands, which of them need an API key, the grouped forms
//! they stand for, and the admin API request each single-request command
//! makes. Argument parsing, the requests and the printing are done by the
//! caller.
use vstd::prelude::*;
use crate::text::{chars_of, string_of, concat};
use crate::gateway::retry::HttpMethod;

verus! {

/// Service management.
pub enum ServiceCommands {
    List { gateway: String, key: String },
    Add {
        name: String,
        prefix: String,
        upstream: String,
        gateway: String,
        key: String,
        upstreams: Vec<String>,
        load_balance: Option<String>,
        version: Option<String>,
    },
    Remove { id: String, gateway: String, key: String },
    Test { path: String, method: String, gateway: String, key: String },
}

/// Security and compliance.
pub enum SecurityCommands {
    Audit { tail: usize, gateway: String, key: String },
    Waf { gateway: String, key: String },
}

/// Observability.
pub enum OpsCommands {
    Stats { gateway: String, key: String },
    Breakers { gateway: String, key: String },
    Logs { tail: usize, gateway: String, key: String },
    Bench { url: String, requests: usize, concurrency: usize },
    CacheClear { gateway: String, key: String },
}

/// User administration with a session token.
pub enum AdminCommands {
    Users { gateway: String, token: String },
    SetRole { user_id: String, role: String, gateway: String, token: String },
    Disable { user_id: String, gateway: String, token: String },
    Logout { user_id: String, gateway: String, token: String },
    MfaReset { user_id: String, gateway: String, token: String },
    Login { email: String, password: String, gateway: String },
}

/// System utilities.
pub enum SystemCommands {
    Init,
    Validate { config: String },
    Doctor { gateway: String },
    Export { gateway: String, key: String, output: String },
    Import { file: String, gateway: String, key: String },
    GenerateCerts,
}

/// Every command.
pub enum Commands {
    Serve { config: String, port: Option<u16> },
    Status { gateway: String, key: String },
    Service(ServiceCommands),
    Security(SecurityCommands),
    Ops(OpsCommands),
    System(SystemCommands),
    Admin(AdminCommands),
    Add {
        name: String,
        prefix: String,
        upstream: String,
        gateway: String,
        key: String,
        upstreams: Vec<String>,
        load_balance: Option<String>,
        version: Option<String>,
    },
    Remove { id: String, gateway: String, key: String },
    List { gateway: String, key: String },
    Health { gateway: String, key: String },
    Stats { gateway: String, key: String },
    CircuitBreakers { gateway: String, key: String },
    CacheClear { gateway: String, key: String },
    GenerateCerts,
    Validate { config: String },
    Logs { tail: usize, gateway: String, key: String },
    Bench { url: String, requests: usize, concurrency: usize },
    Init,
    Doctor { gateway: String },
    Export { gateway: String, key: String, output: String },
    Import { file: String, gateway: String, key: String },
    ProxyTest { path: String, method: String, gateway: String, key: String },
}

/// The parsed command line.
pub struct Cli {
    pub command: Commands,
}

/// The API key a command carries, for the commands that call the admin API
/// with one.
pub open spec fn key_of(c: Commands) -> Option<Seq<char>> {
    match c {
        Commands::Status { key, .. } => Some(key@),
        Commands::Add { key, .. } => Some(key@),
        Commands::Remove { key, .. } => Some(key@),
        Commands::List { key, .. } => Some(key@),
        Commands::Health { key, .. } => Some(key@),
        Commands::Stats { key, .. } => Some(key@),
        Commands::CircuitBreakers { key, .. } => Some(key@),
        Commands::CacheClear { key, .. } => Some(key@),
        Commands::Logs { key, .. } => Some(key@),
        Commands::Export { key, .. } => Some(key@),
        Commands::Import { key, .. } => Some(key@),
        Commands::ProxyTest { key, .. } => Some(key@),
        Commands::Service(s) => match s {
            ServiceCommands::List { key, .. } => Some(key@),
            ServiceCommands::Add { key, .. } => Some(key@),
            ServiceCommands::Remove { key, .. } => Some(key@),
            ServiceCommands::Test { key, .. } => Some(key@),
        },
        Commands::Security(s) => match s {
            SecurityCommands::Audit { key, .. } => Some(key@),
            SecurityCommands::Waf { key, .. } => Some(key@),
        },
        Commands::Ops(s) => match s {
            OpsCommands::Stats { key, .. } => Some(key@),
            OpsCommands::Breakers { key, .. } => Some(key@),
            OpsCommands::Logs { key, .. } => Some(key@),
            OpsCommands::CacheClear { key, .. } => Some(key@),
            OpsCommands::Bench { .. } => None,
        },
        Commands::System(s) => match s {
            SystemCommands::Export { key, .. } => Some(key@),
            SystemCommands::Import { key, .. } => Some(key@),
            _ => None,
        },
        _ => None,
    }
}

fn service_key(s: &ServiceCommands) -> (r: Option<&str>)
    ensures
        match r {
            Some(k) => key_of(Commands::Service(*s)) == Some(k@),
            None => key_of(Commands::Service(*s)) is None,
        },
{
    match s {
        ServiceCommands::Add { key, .. } | ServiceCommands::Remove { key, .. } | ServiceCommands::List { key, .. }
        | ServiceCommands::Test { key, .. } => Some(key.as_str()),
    }
}

fn security_key(s: &SecurityCommands) -> (r: Option<&str>)
    ensures
        match r {
            Some(k) => key_of(Commands::Security(*s)) == Some(k@),
            None => key_of(Commands::Security(*s)) is None,
        },
{
    match s {
        SecurityCommands::Waf { key, .. } | SecurityCommands::Audit { key, .. } => Some(key.as_str()),
    }
}

fn ops_key(s: &OpsCommands) -> (r: Option<&str>)
    ensures
        match r {
            Some(k) => key_of(Commands::Ops(*s)) == Some(k@),
            None => key_of(Commands::Ops(*s)) is None,
        },
{
    match s {
        OpsCommands::Stats { key, .. } | OpsCommands::Breakers { key, .. } | OpsCommands::Logs { key, .. }
        | OpsCommands::CacheClear { key, .. } => Some(key.as_str()),
        OpsCommands::Bench { .. } => None,
    }
}

fn system_key(s: &SystemCommands) -> (r: Option<&str>)
    ensures
        match r {
            Some(k) => key_of(Commands::System(*s)) == Some(k@),
            None => key_of(Commands::System(*s)) is None,
        },
{
    match s {
        SystemCommands::Export { key, .. } | SystemCommands::Import { key, .. } => Some(key.as_str()),
        _ => None,
    }
}

/// The API key of a command that uses one.
pub fn command_key(cmd: &Commands) -> (r: Option<&str>)
    ensures
        match r {
            Some(k) => key_of(*cmd) == Some(k@),
            None => key_of(*cmd) is None,
        },
{
    match cmd {
        Commands::Status { key, .. } | Commands::Add { key, .. } | Commands::Remove { key, .. } | Commands::List {
            key,
            ..
        } | Commands::Health { key, .. } | Commands::Stats { key, .. } | Commands::CircuitBreakers { key, .. }
        | Commands::CacheClear { key, .. } | Commands::Logs { key, .. } | Commands::Export { key, .. }
        | Commands::Import { key, .. } | Commands::ProxyTest { key, .. } => Some(key.as_str()),
        Commands::Service(sc) => service_key(sc),
        Commands::Security(sc) => security_key(sc),
        Commands::Ops(sc) => ops_key(sc),
        Commands::System(sc) => system_key(sc),
        _ => None,
    }
}

/// A command that needs an API key is refused up front when the key is empty.
pub fn check_api_key(cmd: &Commands) -> (r: Result<(), String>)
    ensures
        r is Err <==> (key_of(*cmd) matches Some(k) && k.len() == 0),
        r matches Err(m) ==> m@ == "API key not provided. Set XIRA_API_KEY env variable, or pass --key <KEY>"@,
{
    match command_key(cmd) {
        Some(k) => {
            if chars_of(k).len() == 0 {
                Err(crate::config::text("API key not provided. Set XIRA_API_KEY env variable, or pass --key <KEY>"))
            } else {
                Ok(())
            }
        },
        None => Ok(()),
    }
}

/// How a request authenticates.
pub enum Credential {
    ApiKey(String),
    Bearer(String),
    Anonymous,
}

/// The admin API request of a command.
pub struct ApiCall {
    pub method: HttpMethod,
    pub url: String,
    pub credential: Credential,
}

fn join(gateway: &String, path: &str) -> (r: String)
    ensures
        r@ == gateway@ + path@,
{
    let c = concat(chars_of(gateway.as_str()).as_slice(), chars_of(path).as_slice());
    string_of(c.as_slice())
}

fn join3(gateway: &String, a: &str, id: &String, b: &str) -> (r: String)
    ensures
        r@ == gateway@ + a@ + id@ + b@,
{
    let x = concat(chars_of(gateway.as_str()).as_slice(), chars_of(a).as_slice());
    let y = concat(x.as_slice(), chars_of(id.as_str()).as_slice());
    let z = concat(y.as_slice(), chars_of(b).as_slice());
    string_of(z.as_slice())
}

fn key_cred(k: &String) -> (c: Credential)
    ensures
        (c matches Credential::ApiKey(x) && x@ == k@),
{
    Credential::ApiKey(crate::config::text(k.as_str()))
}

fn bearer_cred(t: &String) -> (c: Credential)
    ensures
        (c matches Credential::Bearer(x) && x@ == "Bearer "@ + t@),
{
    let v = concat(chars_of("Bearer ").as_slice(), chars_of(t.as_str()).as_slice());
    Credential::Bearer(string_of(v.as_slice()))
}

/// A request with an API key.
pub open spec fn key_call(r: Option<ApiCall>, m: HttpMethod, url: Seq<char>, key: Seq<char>) -> bool {
    match r {
        Some(c) => c.method == m && c.url@ == url && match c.credential {
            Credential::ApiKey(k) => k@ == key,
            _ => false,
        },
        None => false,
    }
}

/// A request with a bearer token.
pub open spec fn bearer_call(r: Option<ApiCall>, m: HttpMethod, url: Seq<char>, token: Seq<char>) -> bool {
    match r {
        Some(c) => c.method == m && c.url@ == url && match c.credential {
            Credential::Bearer(b) => b@ == "Bearer "@ + token,
            _ => false,
        },
        None => false,
    }
}

/// A request without credentials.
pub open spec fn anon_call(r: Option<ApiCall>, m: HttpMethod, url: Seq<char>) -> bool {
    match r {
        Some(c) => c.method == m && c.url@ == url && c.credential is Anonymous,
        None => false,
    }
}

/// The request an admin command makes, with a session token.
pub open spec fn admin_call_spec(a: AdminCommands, r: Option<ApiCall>) -> bool {
    match a {
        AdminCommands::Users { gateway, token } => bearer_call(r, HttpMethod::Get, gateway@ + "/auth/admin/users"@, token@),
        AdminCommands::SetRole { user_id, gateway, token, .. } => bearer_call(
            r,
            HttpMethod::Put,
            gateway@ + "/auth/admin/users/"@ + user_id@ + "/role"@,
            token@,
        ),
        AdminCommands::Disable { user_id, gateway, token } => bearer_call(
            r,
            HttpMethod::Post,
            gateway@ + "/auth/admin/users/"@ + user_id@ + "/disable"@,
            token@,
        ),
        AdminCommands::Logout { user_id, gateway, token } => bearer_call(
            r,
            HttpMethod::Post,
            gateway@ + "/auth/admin/users/"@ + user_id@ + "/logout-all"@,
            token@,
        ),
        AdminCommands::MfaReset { user_id, gateway, token } => bearer_call(
            r,
            HttpMethod::Post,
            gateway@ + "/auth/admin/users/"@ + user_id@ + "/mfa/disable"@,
            token@,
        ),
        AdminCommands::Login { gateway, .. } => anon_call(r, HttpMethod::Post, gateway@ + "/auth/login"@),
    }
}

/// The request a command makes to the admin API, for the commands that make
/// exactly one; `None` for the others.
pub open spec fn api_call_spec(c: Commands, r: Option<ApiCall>) -> bool {
    match c {
        Commands::Add { gateway, key, .. } => key_call(r, HttpMethod::Post, gateway@ + "/xira/services"@, key@),
        Commands::Remove { id, gateway, key } => key_call(r, HttpMethod::Delete, gateway@ + "/xira/services/"@ + id@, key@),
        Commands::List { gateway, key } => key_call(r, HttpMethod::Get, gateway@ + "/xira/services"@, key@),
        Commands::Health { gateway, key } => key_call(r, HttpMethod::Get, gateway@ + "/xira/health"@, key@),
        Commands::Stats { gateway, key } => key_call(r, HttpMethod::Get, gateway@ + "/xira/stats"@, key@),
        Commands::CircuitBreakers { gateway, key } => key_call(r, HttpMethod::Get, gateway@ + "/xira/circuit-breakers"@, key@),
        Commands::CacheClear { gateway, key } => key_call(r, HttpMethod::Post, gateway@ + "/xira/cache/clear"@, key@),
        Commands::Logs { gateway, key, .. } => key_call(r, HttpMethod::Get, gateway@ + "/xira/log-stats"@, key@),
        Commands::Admin(a) => admin_call_spec(a, r),
        Commands::Security(s) => match s {
            SecurityCommands::Waf { gateway, key } => key_call(r, HttpMethod::Get, gateway@ + "/xira/security/waf"@, key@),
            _ => r is None,
        },
        _ => r is None,
    }
}

fn key_request(m: HttpMethod, gateway: &String, path: &str, key: &String) -> (r: Option<ApiCall>)
    ensures
        key_call(r, m, gateway@ + path@, key@),
{
    Some(ApiCall { method: m, url: join(gateway, path), credential: key_cred(key) })
}

fn admin_call(a: &AdminCommands) -> (r: Option<ApiCall>)
    ensures
        admin_call_spec(*a, r),
{
    match a {
        AdminCommands::Users { gateway, token } => Some(ApiCall { method: HttpMethod::Get, url: join(gateway, "/auth/admin/users"), credential: bearer_cred(token) }),
        AdminCommands::SetRole { user_id, gateway, token, .. } => Some(ApiCall { method: HttpMethod::Put, url: join3(gateway, "/auth/admin/users/", user_id, "/role"), credential: bearer_cred(token) }),
        AdminCommands::Disable { user_id, gateway, token } => Some(ApiCall { method: HttpMethod::Post, url: join3(gateway, "/auth/admin/users/", user_id, "/disable"), credential: bearer_cred(token) }),
        AdminCommands::Logout { user_id, gateway, token } => Some(ApiCall { method: HttpMethod::Post, url: join3(gateway, "/auth/admin/users/", user_id, "/logout-all"), credential: bearer_cred(token) }),
        AdminCommands::MfaReset { user_id, gateway, token } => Some(ApiCall { method: HttpMethod::Post, url: join3(gateway, "/auth/admin/users/", user_id, "/mfa/disable"), credential: bearer_cred(token) }),
        AdminCommands::Login { gateway, .. } => Some(ApiCall { method: HttpMethod::Post, url: join(gateway, "/auth/login"), credential: Credential::Anonymous }),
    }
}

/// The request a command makes to the admin API, for the commands that make
/// exactly one: its method, its URL under the gateway, and its credential.
pub fn api_call(cmd: &Commands) -> (r: Option<ApiCall>)
    ensures
        api_call_spec(*cmd, r),
{
    match cmd {
        Commands::Add { gateway, key, .. } => key_request(HttpMethod::Post, gateway, "/xira/services", key),
        Commands::Remove { id, gateway, key } => {
            proof {
                reveal_strlit("");
            }
            let url = join3(gateway, "/xira/services/", id, "");
            assert(url@ =~= gateway@ + "/xira/services/"@ + id@);
            Some(ApiCall { method: HttpMethod::Delete, url, credential: key_cred(key) })
        },
        Commands::List { gateway, key } => key_request(HttpMethod::Get, gateway, "/xira/services", key),
        Commands::Health { gateway, key } => key_request(HttpMethod::Get, gateway, "/xira/health", key),
        Commands::Stats { gateway, key } => key_request(HttpMethod::Get, gateway, "/xira/stats", key),
        Commands::CircuitBreakers { gateway, key } => key_request(HttpMethod::Get, gateway, "/xira/circuit-breakers", key),
        Commands::CacheClear { gateway, key } => key_request(HttpMethod::Post, gateway, "/xira/cache/clear", key),
        Commands::Logs { gateway, key, .. } => key_request(HttpMethod::Get, gateway, "/xira/log-stats", key),
        Commands::Security(s) => match s {
            SecurityCommands::Waf { gateway, key } => key_request(HttpMethod::Get, gateway, "/xira/security/waf", key),
            SecurityCommands::Audit { .. } => None,
        },
        Commands::Admin(a) => admin_call(a),
        Commands::Serve { .. } | Commands::Status { .. } | Commands::Service(_) | Commands::Ops(_) | Commands::System(_)
        | Commands::GenerateCerts | Commands::Validate { .. } | Commands::Bench { .. } | Commands::Init
        | Commands::Doctor { .. } | Commands::Export { .. } | Commands::Import { .. } | Commands::ProxyTest { .. } => None,
    }
}

/// The single-level command a grouped command stands for: service, ops,
/// security audit and system commands run as their older flat forms; the
/// rest stay as they are.
pub fn flatten(cmd: Commands) -> (r: Commands)
    ensures
        match cmd {
            Commands::Service(ServiceCommands::List { .. }) => r is List,
            Commands::Service(ServiceCommands::Add { .. }) => r is Add,
            Commands::Service(ServiceCommands::Remove { .. }) => r is Remove,
            Commands::Service(ServiceCommands::Test { .. }) => r is ProxyTest,
            Commands::Security(SecurityCommands::Audit { .. }) => r is Logs,
            Commands::Ops(OpsCommands::Stats { .. }) => r is Stats,
            Commands::Ops(OpsCommands::Breakers { .. }) => r is CircuitBreakers,
            Commands::Ops(OpsCommands::Logs { .. }) => r is Logs,
            Commands::Ops(OpsCommands::Bench { .. }) => r is Bench,
            Commands::Ops(OpsCommands::CacheClear { .. }) => r is CacheClear,
            Commands::System(SystemCommands::Init) => r is Init,
            Commands::System(SystemCommands::Validate { .. }) => r is Validate,
            Commands::System(SystemCommands::Doctor { .. }) => r is Doctor,
            Commands::System(SystemCommands::Export { .. }) => r is Export,
            Commands::System(SystemCommands::Import { .. }) => r is Import,
            _ => r == cmd,
        },
        key_of(r) == key_of(cmd) || !(key_of(cmd) is Some),
{
    match cmd {
        Commands::Service(ServiceCommands::List { gateway, key }) => Commands::List { gateway, key },
        Commands::Service(ServiceCommands::Add { name, prefix, upstream, gateway, key, upstreams, load_balance, version }) => Commands::Add {
            name,
            prefix,
            upstream,
            gateway,
            key,
            upstreams,
            load_balance,
            version,
        },
        Commands::Service(ServiceCommands::Remove { id, gateway, key }) => Commands::Remove { id, gateway, key },
        Commands::Service(ServiceCommands::Test { path, method, gateway, key }) => Commands::ProxyTest { path, method, gateway, key },
        Commands::Security(SecurityCommands::Audit { tail, gateway, key }) => Commands::Logs { tail, gateway, key },
        Commands::Ops(OpsCommands::Stats { gateway, key }) => Commands::Stats { gateway, key },
        Commands::Ops(OpsCommands::Breakers { gateway, key }) => Commands::CircuitBreakers { gateway, key },
        Commands::Ops(OpsCommands::Logs { tail, gateway, key }) => Commands::Logs { tail, gateway, key },
        Commands::Ops(OpsCommands::Bench { url, requests, concurrency }) => Commands::Bench { url, requests, concurrency },
        Commands::Ops(OpsCommands::CacheClear { gateway, key }) => Commands::CacheClear { gateway, key },
        Commands::System(SystemCommands::Init) => Commands::Init,
        Commands::System(SystemCommands::Validate { config }) => Commands::Validate { config },
        Commands::System(SystemCommands::Doctor { gateway }) => Commands::Doctor { gateway },
        Commands::System(SystemCommands::Export { gateway, key, output }) => Commands::Export { gateway, key, output },
        Commands::System(SystemCommands::Import { file, gateway, key }) => Commands::Import { file, gateway, key },
        other => other,
    }
}


/// A service read from an export file, as it is imported.
pub struct ImportedService {
    pub name: String,
    pub prefix: String,
    pub upstream: String,
}

/// The text of an optional field, or a default.
pub open spec fn or_default(o: Option<Seq<char>>, d: Seq<char>) -> Seq<char> {
    match o {
        Some(v) => v,
        None => d,
    }
}

/// The text of an optional string slice.
pub open spec fn opt_seq(o: Option<&str>) -> Option<Seq<char>> {
    match o {
        Some(v) => Some(v@),
        None => None,
    }
}

fn text_or(o: Option<&str>, d: &str) -> (r: String)
    ensures
        r@ == or_default(opt_seq(o), d@),
{
    match o {
        Some(v) => string_of(chars_of(v).as_slice()),
        None => string_of(chars_of(d).as_slice()),
    }
}

/// A service entry of an export file as it is imported: a missing name is
/// `unknown`, a missing prefix `/`; an entry without an upstream (missing
/// or empty) is skipped.
pub fn import_entry(name: Option<&str>, prefix: Option<&str>, upstream: Option<&str>) -> (r: Option<ImportedService>)
    ensures
        r is None <==> or_default(opt_seq(upstream), Seq::empty()).len() == 0,
        r matches Some(s) ==> s.name@ == or_default(opt_seq(name), "unknown"@) && s.prefix@ == or_default(opt_seq(prefix), "/"@)
            && s.upstream@ == or_default(opt_seq(upstream), Seq::empty()),
{
    let u = match upstream {
        Some(v) => string_of(chars_of(v).as_slice()),
        None => string_of(Vec::new().as_slice()),
    };
    if chars_of(u.as_str()).len() == 0 {
        return None;
    }
    Some(ImportedService { name: text_or(name, "unknown"), prefix: text_or(prefix, "/"), upstream: u })
}

} // verus!
