//! The gateway's configuration model and its boot-time validation.
//!
//! Reading the file, and the questions the validation asks of the file
//! system, are left to the caller: it hands over whether the certificate,
//! key, client CA and plugin directory exist.
use vstd::prelude::*;
use crate::text::{chars_of, string_of, concat, eq_str, starts_with, has_prefix, uppercased, to_uppercase};
use crate::fmt::{decimal, decimal_text};

verus! {

/// A `String` holding the given text.
pub fn text(s: &str) -> (r: String)
    ensures
        r@ == s@,
{
    string_of(chars_of(s).as_slice())
}

/// Joins texts.
fn join3(a: &str, b: &str, c: &str) -> (r: String)
    ensures
        r@ == a@ + b@ + c@,
{
    let ab = concat(chars_of(a).as_slice(), chars_of(b).as_slice());
    let abc = concat(ab.as_slice(), chars_of(c).as_slice());
    string_of(abc.as_slice())
}

/// The coordination bus.
pub struct BusConfig {
    /// `noop` (single node) or `redis`.
    pub backend: String,
    /// `redis://host:port[/db]`; needed for the redis backend.
    pub redis_url: String,
}

/// Audit log sinks.
pub struct AuditConfig {
    pub file_path: Option<String>,
    pub webhook_url: Option<String>,
    pub webhook_headers: Vec<(String, String)>,
    /// Entries buffered for the sinks; older ones are dropped when full.
    pub buffer_size: usize,
}

/// Cross-origin requests.
pub struct CorsConfig {
    pub allowed_origins: Vec<String>,
    pub allow_credentials: bool,
    pub max_age: usize,
}

/// The proxy listener.
pub struct GatewayConfig {
    pub host: String,
    pub port: u16,
    pub workers: usize,
}

/// The admin API.
pub struct AdminConfig {
    pub api_key: String,
    pub enabled: bool,
}

/// Upstream health checks.
pub struct HealthConfig {
    pub interval_secs: u64,
    pub timeout_secs: u64,
}

/// TLS termination.
pub struct TlsConfig {
    pub enabled: bool,
    pub cert_path: String,
    pub key_path: String,
    pub mtls_enabled: bool,
    pub client_ca_path: Option<String>,
}

/// The metrics endpoint.
pub struct MetricsConfig {
    pub enabled: bool,
    pub path: String,
}

/// Log output.
pub struct LoggingConfig {
    pub file_enabled: bool,
    pub file_path: String,
    pub rotation: String,
    pub level: String,
}

/// Service up/down alerts.
pub struct AlertingConfig {
    pub enabled: bool,
    pub webhook_url: Option<String>,
    pub on_service_down: bool,
    pub on_service_up: bool,
}

/// Request rate limiting.
pub struct RateLimitConfig {
    pub max_requests: u32,
    pub window_secs: u64,
    /// Per path prefix: requests allowed per window.
    pub routes: Vec<(String, u32)>,
    /// Take the first X-Forwarded-For hop as the client address.
    pub trust_xff: bool,
}

/// The response cache.
pub struct CacheConfig {
    pub enabled: bool,
    pub ttl_secs: u64,
    pub max_entries: usize,
}

/// JWT authentication.
pub struct JwtConfig {
    pub enabled: bool,
    pub secret: String,
    pub algorithm: String,
    pub issuer: Option<String>,
}

/// OAuth2 token introspection.
pub struct OAuth2Config {
    pub enabled: bool,
    pub issuer_url: String,
    pub introspection_url: Option<String>,
    pub client_id: Option<String>,
    pub client_secret: Option<String>,
    pub jwks_url: Option<String>,
}

/// The global address filter.
pub struct IpFilterConfig {
    pub enabled: bool,
    pub whitelist: Vec<String>,
    pub blacklist: Vec<String>,
}

/// Circuit breaker settings.
pub struct CircuitBreakerConfig {
    pub failure_threshold: u32,
    pub reset_timeout_secs: u64,
    pub half_open_max_requests: u32,
}

/// Proxy retries.
pub struct RetryConfig {
    pub max_retries: u32,
    pub delay_ms: u64,
    /// The backoff multiplier, an `f64`, kept as its IEEE-754 bits.
    pub backoff_multiplier_bits: u64,
}

/// Plugins.
pub struct PluginConfig {
    pub enabled: bool,
    pub directory: String,
}

/// The gRPC listener.
pub struct GrpcConfig {
    pub enabled: bool,
    pub port: u16,
}

/// Service discovery.
pub struct DiscoveryConfig {
    pub enabled: bool,
    /// `consul`, `dns` or `static`.
    pub backend: String,
    pub consul_url: Option<String>,
    pub consul_datacenter: Option<String>,
    pub dns_domain: Option<String>,
    pub interval_secs: u64,
    pub mesh_enabled: bool,
    pub docker_enabled: bool,
    pub docker_socket: String,
}

/// Redis.
pub struct RedisConfig {
    pub enabled: bool,
    pub url: Option<String>,
}

/// OpenTelemetry export.
pub struct TelemetryConfig {
    pub enabled: bool,
    pub otlp_endpoint: String,
    pub service_name: String,
}

/// The web application firewall.
pub struct WafConfig {
    pub enabled: bool,
    /// `block` or `detect_only`.
    pub mode: String,
    pub custom_block_patterns: Vec<String>,
}

/// Bot detection.
pub struct BotDetectionConfig {
    pub enabled: bool,
    pub block_bots: bool,
    pub crawl_rate_limit: u32,
}

/// Users and sessions.
pub struct IdentityConfig {
    pub max_sessions_per_user: usize,
    pub password_min_length: usize,
    pub registration_enabled: bool,
}

/// Log retention and service-level targets.
pub struct ObservabilityConfig {
    pub log_max_entries: usize,
    pub uptime_history_days: u32,
    /// The uptime target in percent, an `f64`, kept as its IEEE-754 bits.
    pub sla_target_uptime_bits: u64,
    /// The latency target in ms, an `f64`, kept as its IEEE-754 bits.
    pub sla_target_latency_ms_bits: u64,
}

/// Header rewriting of a service.
pub struct TransformConfig {
    pub add_request_headers: Vec<(String, String)>,
    pub remove_request_headers: Vec<String>,
    pub add_response_headers: Vec<(String, String)>,
    pub remove_response_headers: Vec<String>,
}

/// The health path of a service configured without one.
pub fn default_health_endpoint() -> (s: String)
    ensures
        s@ == "/health"@,
{
    text("/health")
}

/// A statically configured service.
pub struct ServiceConfig {
    pub name: String,
    pub prefix: String,
    pub upstream: String,
    pub health_endpoint: String,
    pub upstreams: Vec<String>,
    pub load_balance: Option<String>,
    pub version: Option<String>,
    pub transform: Option<TransformConfig>,
    pub validation_schema: Option<String>,
    pub ip_whitelist: Vec<String>,
    pub ip_blacklist: Vec<String>,
}

/// The whole configuration.
pub struct XiraConfig {
    pub gateway: GatewayConfig,
    pub admin: AdminConfig,
    pub health: HealthConfig,
    pub tls: Option<TlsConfig>,
    pub metrics: MetricsConfig,
    pub logging: LoggingConfig,
    pub alerting: AlertingConfig,
    pub rate_limit: RateLimitConfig,
    pub cache: CacheConfig,
    pub jwt: JwtConfig,
    pub oauth2: OAuth2Config,
    pub ip_filter: IpFilterConfig,
    pub circuit_breaker: CircuitBreakerConfig,
    pub retry: RetryConfig,
    pub plugins: PluginConfig,
    pub grpc: GrpcConfig,
    pub services: Vec<ServiceConfig>,
    pub discovery: DiscoveryConfig,
    pub redis: RedisConfig,
    pub telemetry: TelemetryConfig,
    pub waf: WafConfig,
    pub bot_detection: BotDetectionConfig,
    pub identity: IdentityConfig,
    pub observability: ObservabilityConfig,
    pub cors: CorsConfig,
    pub audit: AuditConfig,
    pub bus: BusConfig,
}

/// The outcome of validating a configuration: errors refuse the boot,
/// warnings do not.
pub struct ValidationReport {
    pub errors: Vec<String>,
    pub warnings: Vec<String>,
}

impl ValidationReport {
    /// No errors.
    pub fn ok(&self) -> (r: bool)
        ensures
            r == (self.errors@.len() == 0),
    {
        self.errors.len() == 0
    }
}

/// Admin keys that ship as defaults or examples.
pub open spec fn default_admin_key(k: Seq<char>) -> bool {
    k == ""@ || k == "xira-default-key"@ || k == "xira-secret-key-change-me"@ || k == "change-me"@ || k
        == "changeme"@ || k == "secret"@
}

/// JWT secrets that ship as defaults or examples.
pub open spec fn default_jwt_secret(s: Seq<char>) -> bool {
    s == ""@ || s == "your-jwt-secret-key-here"@ || s == "change-me"@ || s == "changeme"@ || s == "secret"@ || s
        == "jwt-secret"@ || s == "xira-secret-key-change-me"@
}

/// A bind address reachable from other machines: anything but the loopback
/// names.
pub open spec fn external_bind(h: Seq<char>) -> bool {
    !(h == "127.0.0.1"@ || h == "localhost"@ || h == "::1"@)
}

/// Whether an admin key is a known default.
pub fn is_default_admin_key(api_key: &str) -> (r: bool)
    ensures
        r == default_admin_key(api_key@),
{
    let k = chars_of(api_key);
    let s = k.as_slice();
    eq_str(s, "") || eq_str(s, "xira-default-key") || eq_str(s, "xira-secret-key-change-me") || eq_str(
        s,
        "change-me",
    ) || eq_str(s, "changeme") || eq_str(s, "secret")
}

/// Whether a JWT secret is a known default.
pub fn is_default_jwt_secret(secret: &str) -> (r: bool)
    ensures
        r == default_jwt_secret(secret@),
{
    let k = chars_of(secret);
    let s = k.as_slice();
    eq_str(s, "") || eq_str(s, "your-jwt-secret-key-here") || eq_str(s, "change-me") || eq_str(s, "changeme")
        || eq_str(s, "secret") || eq_str(s, "jwt-secret") || eq_str(s, "xira-secret-key-change-me")
}

/// Whether the listener binds beyond the loopback interface.
pub fn binds_externally(host: &str) -> (r: bool)
    ensures
        r == external_bind(host@),
{
    let k = chars_of(host);
    let s = k.as_slice();
    !(eq_str(s, "127.0.0.1") || eq_str(s, "localhost") || eq_str(s, "::1"))
}

/// Whether `jsonwebtoken` accepts the bytes as an RSA public key in PEM form.
pub uninterp spec fn rsa_pem_valid(secret: Seq<char>) -> bool;

/// Tries `jsonwebtoken::DecodingKey::from_rsa_pem` on the secret's bytes and
/// tells whether it succeeded; the result is named, as the PEM and key
/// parsing decides it.
#[verifier::external_body]
fn rsa_pem_ok(secret: &str) -> (r: bool)
    ensures
        r == rsa_pem_valid(secret@),
{
    jsonwebtoken::DecodingKey::from_rsa_pem(secret.as_bytes()).is_ok()
}

/// What the file system says about the paths the configuration names.
pub struct PathFacts {
    pub cert_exists: bool,
    pub key_exists: bool,
    /// Whether the client CA file exists, when one is named.
    pub client_ca_exists: bool,
    pub plugin_dir_exists: bool,
}

/// The message for a default admin key on an external bind.
pub open spec fn admin_error(host: Seq<char>) -> Seq<char> {
    "admin.api_key is a known default and gateway.host = "@ + host + " binds externally — refuse to start"@
}

/// Service prefixes that repeat an earlier one, each with its message.
pub open spec fn duplicate_prefix_errors(s: Seq<Seq<char>>) -> Seq<Seq<char>>
    decreases s.len(),
{
    if s.len() == 0 {
        Seq::empty()
    } else {
        let rest = duplicate_prefix_errors(s.drop_last());
        if s.drop_last().contains(s.last()) {
            rest.push("duplicate [[services]] prefix: "@ + s.last() + " (each prefix must be unique)"@)
        } else {
            rest
        }
    }
}

/// A configuration gets one duplicate-prefix error for each service whose
/// prefix an earlier service already has: as many as there are services
/// beyond the distinct prefixes, and none when all prefixes differ.
pub proof fn law_duplicate_prefix_count(s: Seq<Seq<char>>)
    ensures
        s.to_set().finite(),
        duplicate_prefix_errors(s).len() == s.len() - s.to_set().len(),
        s.no_duplicates() ==> duplicate_prefix_errors(s).len() == 0,
    decreases s.len(),
{
    vstd::seq_lib::seq_to_set_is_finite(s);
    if s.len() == 0 {
        assert(s.to_set() =~= Set::<Seq<char>>::empty());
    } else {
        let d = s.drop_last();
        law_duplicate_prefix_count(d);
        assert(s.to_set() =~= d.to_set().insert(s.last())) by {
            assert forall|x: Seq<char>| s.to_set().contains(x) <==> d.to_set().insert(s.last()).contains(x) by {
                if s.contains(x) {
                    let i = choose|i: int| 0 <= i < s.len() && s[i] == x;
                    if i < s.len() - 1 {
                        assert(d[i] == x);
                    }
                }
                if d.contains(x) {
                    let i = choose|i: int| 0 <= i < d.len() && d[i] == x;
                    assert(s[i] == x);
                }
                if x == s.last() {
                    assert(s[s.len() - 1] == x);
                }
            }
        }
        if d.contains(s.last()) {
            assert(d.to_set().contains(s.last()));
        } else {
            assert(!d.to_set().contains(s.last()));
        }
        if s.no_duplicates() {
            assert(d.no_duplicates()) by {
                assert forall|i: int, j: int| 0 <= i < d.len() && 0 <= j < d.len() && i != j implies d[i] != d[j] by {
                    assert(s[i] != s[j]);
                }
            }
            if d.contains(s.last()) {
                let i = choose|i: int| 0 <= i < d.len() && d[i] == s.last();
                assert(s[i] == s[s.len() - 1]);
            }
        }
    }
}

/// The event bus setting is refused exactly when it is neither `noop` nor
/// `redis` with a `redis://` or `rediss://` URL, and each refusal is a
/// message starting `bus.`.
pub proof fn law_bus_errors(b: BusConfig)
    ensures
        bus_errors(b).len() > 0 <==> !(b.backend@ == "noop"@ || (b.backend@ == "redis"@ && (has_prefix(b.redis_url@, "redis://"@)
            || has_prefix(b.redis_url@, "rediss://"@)))),
        forall|i: int| 0 <= i < bus_errors(b).len() ==> has_prefix(#[trigger] bus_errors(b)[i], "bus."@),
{
    reveal_strlit("redis://");
    reveal_strlit("rediss://");
    reveal_strlit("bus.");
    reveal_strlit("bus.backend = \"redis\" requires bus.redis_url");
    reveal_strlit("bus.redis_url must start with redis:// or rediss://, got: ");
    reveal_strlit("bus.backend = ");
    if b.backend@ == "redis"@ && b.redis_url@.len() == 0 {
        assert(!has_prefix(b.redis_url@, "redis://"@));
        assert(!has_prefix(b.redis_url@, "rediss://"@));
        assert("bus.backend = \"redis\" requires bus.redis_url"@.subrange(0, 4) =~= "bus."@);
    }
    assert("bus.redis_url must start with redis:// or rediss://, got: "@.subrange(0, 4) =~= "bus."@);
    let m = "bus.redis_url must start with redis:// or rediss://, got: "@ + b.redis_url@;
    assert(m.subrange(0, 4) =~= "bus."@);
    let u = "bus.backend = "@ + b.backend@ + " unsupported (noop|redis)"@;
    assert(u.subrange(0, 4) =~= "bus."@);
}

/// One message when a condition holds.
pub open spec fn when(c: bool, m: Seq<char>) -> Seq<Seq<char>> {
    if c {
        seq![m]
    } else {
        Seq::empty()
    }
}

/// The length in bytes of a text, as `str::len` gives it.
pub open spec fn byte_len(s: Seq<char>) -> usize {
    vstd::utf8::encode_utf8(s).len() as usize
}

/// The errors about JWT settings when JWT is on.
pub open spec fn jwt_errors(j: JwtConfig) -> Seq<Seq<char>> {
    if !j.enabled {
        Seq::empty()
    } else {
        let a = when(
            default_jwt_secret(j.secret@),
            "jwt.secret is a known default/example value — refuse to start with jwt.enabled=true"@,
        );
        let up = uppercased(j.algorithm@);
        let b = if up == "HS256"@ || up == "HS384"@ || up == "HS512"@ {
            when(
                byte_len(j.secret@) < 32,
                "jwt.secret too short ("@ + decimal(byte_len(j.secret@) as nat)
                    + " bytes), HMAC algorithms require >= 32 bytes"@,
            )
        } else if up == "RS256"@ {
            when(!rsa_pem_valid(j.secret@), "jwt.algorithm = RS256 but jwt.secret is not a valid RSA PEM"@)
        } else {
            seq!["jwt.algorithm = "@ + up + " unsupported (HS256/HS384/HS512/RS256)"@]
        };
        a + b
    }
}

/// The errors about TLS files.
pub open spec fn tls_errors(t: Option<TlsConfig>, f: PathFacts) -> Seq<Seq<char>> {
    match t {
        Some(tls) => if tls.enabled {
            when(!f.cert_exists, "tls.cert_path not found: "@ + tls.cert_path@) + when(
                !f.key_exists,
                "tls.key_path not found: "@ + tls.key_path@,
            ) + if tls.mtls_enabled {
                match tls.client_ca_path {
                    Some(ca) => when(!f.client_ca_exists, "tls.client_ca_path not found: "@ + ca@),
                    None => seq!["tls.mtls_enabled = true requires client_ca_path"@],
                }
            } else {
                Seq::empty()
            }
        } else {
            Seq::empty()
        },
        None => Seq::empty(),
    }
}

/// The errors about the bus.
pub open spec fn bus_errors(b: BusConfig) -> Seq<Seq<char>> {
    if b.backend@ == "noop"@ {
        Seq::empty()
    } else if b.backend@ == "redis"@ {
        if b.redis_url@.len() == 0 {
            seq!["bus.backend = \"redis\" requires bus.redis_url"@]
        } else if !has_prefix(b.redis_url@, "redis://"@) && !has_prefix(b.redis_url@, "rediss://"@) {
            seq!["bus.redis_url must start with redis:// or rediss://, got: "@ + b.redis_url@]
        } else {
            Seq::empty()
        }
    } else {
        seq!["bus.backend = "@ + b.backend@ + " unsupported (noop|redis)"@]
    }
}

/// The errors of a configuration, in the order they are checked.
pub open spec fn config_errors(c: XiraConfig, f: PathFacts) -> Seq<Seq<char>> {
    when(default_admin_key(c.admin.api_key@) && external_bind(c.gateway.host@), admin_error(c.gateway.host@))
        + jwt_errors(c.jwt) + duplicate_prefix_errors(c.services@.map_values(|s: ServiceConfig| s.prefix@))
        + tls_errors(c.tls, f) + when(c.rate_limit.max_requests == 0, "rate_limit.max_requests = 0 blocks all traffic"@)
        + bus_errors(c.bus)
}

/// The opening of a duplicate-prefix error.
pub open spec fn duplicate_head() -> Seq<char> {
    "duplicate [[services]] prefix: "@
}

/// Whether an error reports a duplicate service prefix.
pub open spec fn is_duplicate_error() -> spec_fn(Seq<char>) -> bool {
    |m: Seq<char>| has_prefix(m, duplicate_head())
}

/// Every message of a list begins with `c`.
pub open spec fn all_begin(s: Seq<Seq<char>>, c: char) -> bool {
    forall|i: int| 0 <= i < s.len() ==> #[trigger] s[i].len() > 0 && s[i][0] == c
}

proof fn lemma_begin_join(a: Seq<Seq<char>>, b: Seq<Seq<char>>, c: char)
    requires
        all_begin(a, c),
        all_begin(b, c),
    ensures
        all_begin(a + b, c),
{
    assert forall|i: int| 0 <= i < (a + b).len() implies #[trigger] (a + b)[i].len() > 0 && (a + b)[i][0] == c by {
        if i < a.len() {
            assert((a + b)[i] == a[i]);
        } else {
            assert((a + b)[i] == b[i - a.len()]);
        }
    }
}

proof fn lemma_first_char(l: Seq<char>, x: Seq<char>)
    requires
        l.len() > 0,
    ensures
        (l + x).len() > 0 && (l + x)[0] == l[0],
{
}

proof fn lemma_section_heads(c: XiraConfig, f: PathFacts)
    ensures
        all_begin(when(default_admin_key(c.admin.api_key@) && external_bind(c.gateway.host@), admin_error(c.gateway.host@)), 'a'),
        all_begin(jwt_errors(c.jwt), 'j'),
        all_begin(tls_errors(c.tls, f), 't'),
        all_begin(when(c.rate_limit.max_requests == 0, "rate_limit.max_requests = 0 blocks all traffic"@), 'r'),
        all_begin(bus_errors(c.bus), 'b'),
{
    reveal_strlit("admin.api_key is a known default and gateway.host = ");
    reveal_strlit("jwt.secret is a known default/example value — refuse to start with jwt.enabled=true");
    reveal_strlit("jwt.secret too short (");
    reveal_strlit("jwt.algorithm = RS256 but jwt.secret is not a valid RSA PEM");
    reveal_strlit("jwt.algorithm = ");
    reveal_strlit("tls.cert_path not found: ");
    reveal_strlit("tls.key_path not found: ");
    reveal_strlit("tls.client_ca_path not found: ");
    reveal_strlit("tls.mtls_enabled = true requires client_ca_path");
    reveal_strlit("rate_limit.max_requests = 0 blocks all traffic");
    reveal_strlit("bus.backend = \"redis\" requires bus.redis_url");
    reveal_strlit("bus.redis_url must start with redis:// or rediss://, got: ");
    reveal_strlit("bus.backend = ");
    let h = c.gateway.host@;
    lemma_first_char("admin.api_key is a known default and gateway.host = "@, h + " binds externally — refuse to start"@);
    assert(admin_error(h) == "admin.api_key is a known default and gateway.host = "@ + (h + " binds externally — refuse to start"@));
    let j = c.jwt;
    if j.enabled {
        let up = uppercased(j.algorithm@);
        let a = when(
            default_jwt_secret(j.secret@),
            "jwt.secret is a known default/example value — refuse to start with jwt.enabled=true"@,
        );
        let short = "jwt.secret too short ("@ + decimal(byte_len(j.secret@) as nat) + " bytes), HMAC algorithms require >= 32 bytes"@;
        lemma_first_char("jwt.secret too short ("@, decimal(byte_len(j.secret@) as nat) + " bytes), HMAC algorithms require >= 32 bytes"@);
        assert(short == "jwt.secret too short ("@ + (decimal(byte_len(j.secret@) as nat) + " bytes), HMAC algorithms require >= 32 bytes"@));
        let unsup = "jwt.algorithm = "@ + up + " unsupported (HS256/HS384/HS512/RS256)"@;
        lemma_first_char("jwt.algorithm = "@, up + " unsupported (HS256/HS384/HS512/RS256)"@);
        assert(unsup == "jwt.algorithm = "@ + (up + " unsupported (HS256/HS384/HS512/RS256)"@));
        let b = if up == "HS256"@ || up == "HS384"@ || up == "HS512"@ {
            when(byte_len(j.secret@) < 32, short)
        } else if up == "RS256"@ {
            when(!rsa_pem_valid(j.secret@), "jwt.algorithm = RS256 but jwt.secret is not a valid RSA PEM"@)
        } else {
            seq![unsup]
        };
        assert(all_begin(a, 'j'));
        assert(all_begin(b, 'j'));
        lemma_begin_join(a, b, 'j');
    }
    match c.tls {
        Some(tls) => {
            if tls.enabled {
                let m1 = "tls.cert_path not found: "@ + tls.cert_path@;
                let m2 = "tls.key_path not found: "@ + tls.key_path@;
                lemma_first_char("tls.cert_path not found: "@, tls.cert_path@);
                lemma_first_char("tls.key_path not found: "@, tls.key_path@);
                let x = when(!f.cert_exists, m1);
                let y = when(!f.key_exists, m2);
                let z = if tls.mtls_enabled {
                    match tls.client_ca_path {
                        Some(ca) => {
                            lemma_first_char("tls.client_ca_path not found: "@, ca@);
                            when(!f.client_ca_exists, "tls.client_ca_path not found: "@ + ca@)
                        },
                        None => seq!["tls.mtls_enabled = true requires client_ca_path"@],
                    }
                } else {
                    Seq::empty()
                };
                assert(all_begin(x, 't'));
                assert(all_begin(y, 't'));
                assert(all_begin(z, 't'));
                lemma_begin_join(x, y, 't');
                lemma_begin_join(x + y, z, 't');
            }
        },
        None => {},
    }
    let bb = c.bus;
    lemma_first_char("bus.redis_url must start with redis:// or rediss://, got: "@, bb.redis_url@);
    lemma_first_char("bus.backend = "@, bb.backend@ + " unsupported (noop|redis)"@);
    assert("bus.backend = "@ + bb.backend@ + " unsupported (noop|redis)"@ == "bus.backend = "@ + (bb.backend@ + " unsupported (noop|redis)"@));
}

proof fn lemma_filter_none(s: Seq<Seq<char>>, p: spec_fn(Seq<char>) -> bool)
    requires
        forall|i: int| 0 <= i < s.len() ==> !p(#[trigger] s[i]),
    ensures
        s.filter(p) == Seq::<Seq<char>>::empty(),
{
    assert(s.all(|x: Seq<char>| !p(x))) by {
        assert forall|i: int| 0 <= i < s.len() implies (|x: Seq<char>| !p(x))(#[trigger] s[i]) by {
            assert(!p(s[i]));
        }
    }
    s.lemma_all_neg_filter_empty(p);
    assert(s.filter(p) =~= Seq::<Seq<char>>::empty());
}

proof fn lemma_filter_every(s: Seq<Seq<char>>, p: spec_fn(Seq<char>) -> bool)
    requires
        forall|i: int| 0 <= i < s.len() ==> p(#[trigger] s[i]),
    ensures
        s.filter(p) == s,
    decreases s.len(),
{
    reveal(Seq::filter);
    if s.len() > 0 {
        let d = s.drop_last();
        assert forall|i: int| 0 <= i < d.len() implies p(#[trigger] d[i]) by {
            assert(d[i] == s[i]);
        }
        lemma_filter_every(d, p);
        assert(p(s[s.len() - 1]));
        assert(d.push(s.last()) =~= s);
    }
}

proof fn lemma_duplicate_heads(s: Seq<Seq<char>>)
    ensures
        forall|i: int| 0 <= i < duplicate_prefix_errors(s).len() ==> has_prefix(#[trigger] duplicate_prefix_errors(s)[i], duplicate_head()),
    decreases s.len(),
{
    if s.len() > 0 {
        lemma_duplicate_heads(s.drop_last());
        let rest = duplicate_prefix_errors(s.drop_last());
        let m = "duplicate [[services]] prefix: "@ + s.last() + " (each prefix must be unique)"@;
        assert(m.subrange(0, duplicate_head().len() as int) =~= duplicate_head());
        if s.drop_last().contains(s.last()) {
            assert(duplicate_prefix_errors(s) == rest.push(m));
            assert forall|i: int| 0 <= i < rest.push(m).len() implies has_prefix(#[trigger] rest.push(m)[i], duplicate_head()) by {
                if i < rest.len() {
                    assert(rest.push(m)[i] == rest[i]);
                }
            }
        }
    }
}

proof fn lemma_not_headed(s: Seq<Seq<char>>, c: char, head: Seq<char>)
    requires
        all_begin(s, c),
        head.len() > 0,
        head[0] != c,
    ensures
        forall|i: int| 0 <= i < s.len() ==> !has_prefix(#[trigger] s[i], head),
{
    assert forall|i: int| 0 <= i < s.len() implies !has_prefix(#[trigger] s[i], head) by {
        if has_prefix(s[i], head) {
            assert(s[i].subrange(0, head.len() as int)[0] == s[i][0]);
        }
    }
}

/// Of a configuration's errors, those reporting a duplicate service prefix
/// number exactly the services beyond the distinct prefixes: one for each
/// service whose prefix an earlier service already has.
pub proof fn law_config_duplicate_errors(c: XiraConfig, f: PathFacts)
    ensures
        config_errors(c, f).filter(is_duplicate_error()).len() == c.services@.len() - c.services@.map_values(
            |s: ServiceConfig| s.prefix@,
        ).to_set().len(),
{
    reveal_strlit("duplicate [[services]] prefix: ");
    let p = is_duplicate_error();
    let ps = c.services@.map_values(|s: ServiceConfig| s.prefix@);
    let a = when(default_admin_key(c.admin.api_key@) && external_bind(c.gateway.host@), admin_error(c.gateway.host@));
    let j = jwt_errors(c.jwt);
    let d = duplicate_prefix_errors(ps);
    let t = tls_errors(c.tls, f);
    let r = when(c.rate_limit.max_requests == 0, "rate_limit.max_requests = 0 blocks all traffic"@);
    let b = bus_errors(c.bus);
    lemma_section_heads(c, f);
    lemma_not_headed(a, 'a', duplicate_head());
    lemma_not_headed(j, 'j', duplicate_head());
    lemma_not_headed(t, 't', duplicate_head());
    lemma_not_headed(r, 'r', duplicate_head());
    lemma_not_headed(b, 'b', duplicate_head());
    lemma_filter_none(a, p);
    lemma_filter_none(j, p);
    lemma_filter_none(t, p);
    lemma_filter_none(r, p);
    lemma_filter_none(b, p);
    lemma_duplicate_heads(ps);
    lemma_filter_every(d, p);
    Seq::filter_distributes_over_add(a, j, p);
    Seq::filter_distributes_over_add(a + j, d, p);
    Seq::filter_distributes_over_add(a + j + d, t, p);
    Seq::filter_distributes_over_add(a + j + d + t, r, p);
    Seq::filter_distributes_over_add(a + j + d + t + r, b, p);
    assert(config_errors(c, f) == a + j + d + t + r + b);
    assert(config_errors(c, f).filter(p) =~= d);
    law_duplicate_prefix_count(ps);
}

/// A configuration has an error beginning `bus.` exactly when its event bus
/// setting is neither `noop` nor `redis` with a `redis://` or `rediss://`
/// URL.
pub proof fn law_config_bus_errors(c: XiraConfig, f: PathFacts)
    ensures
        (exists|i: int| 0 <= i < config_errors(c, f).len() && has_prefix(#[trigger] config_errors(c, f)[i], "bus."@)) <==> !(
        c.bus.backend@ == "noop"@ || (c.bus.backend@ == "redis"@ && (has_prefix(c.bus.redis_url@, "redis://"@) || has_prefix(
            c.bus.redis_url@,
            "rediss://"@,
        )))),
{
    reveal_strlit("bus.");
    let ps = c.services@.map_values(|s: ServiceConfig| s.prefix@);
    let a = when(default_admin_key(c.admin.api_key@) && external_bind(c.gateway.host@), admin_error(c.gateway.host@));
    let j = jwt_errors(c.jwt);
    let d = duplicate_prefix_errors(ps);
    let t = tls_errors(c.tls, f);
    let r = when(c.rate_limit.max_requests == 0, "rate_limit.max_requests = 0 blocks all traffic"@);
    let b = bus_errors(c.bus);
    let e = config_errors(c, f);
    lemma_section_heads(c, f);
    reveal_strlit("duplicate [[services]] prefix: ");
    lemma_duplicate_heads(ps);
    assert(all_begin(d, 'd')) by {
        assert forall|i: int| 0 <= i < d.len() implies #[trigger] d[i].len() > 0 && d[i][0] == 'd' by {
            assert(has_prefix(d[i], duplicate_head()));
            assert(d[i].subrange(0, duplicate_head().len() as int)[0] == d[i][0]);
        }
    }
    let front = a + j + d + t + r;
    assert(e == front + b);
    assert forall|i: int| 0 <= i < front.len() implies !has_prefix(#[trigger] front[i], "bus."@) by {
        let k = i;
        if k < a.len() {
            assert(front[k] == a[k]);
            lemma_not_headed(a, 'a', "bus."@);
        } else if k < a.len() + j.len() {
            assert(front[k] == j[k - a.len()]);
            lemma_not_headed(j, 'j', "bus."@);
        } else if k < a.len() + j.len() + d.len() {
            assert(front[k] == d[k - a.len() - j.len()]);
            lemma_not_headed(d, 'd', "bus."@);
        } else if k < a.len() + j.len() + d.len() + t.len() {
            assert(front[k] == t[k - a.len() - j.len() - d.len()]);
            lemma_not_headed(t, 't', "bus."@);
        } else {
            assert(front[k] == r[k - a.len() - j.len() - d.len() - t.len()]);
            lemma_not_headed(r, 'r', "bus."@);
        }
    }
    law_bus_errors(c.bus);
    if b.len() > 0 {
        assert(e[front.len() as int] == b[0]);
        assert(has_prefix(e[front.len() as int], "bus."@));
    }
    if exists|i: int| 0 <= i < e.len() && has_prefix(#[trigger] e[i], "bus."@) {
        let i = choose|i: int| 0 <= i < e.len() && has_prefix(#[trigger] e[i], "bus."@);
        if i < front.len() {
            assert(e[i] == front[i]);
        } else {
            assert(b.len() > 0);
        }
    }
}

/// A JWT setting with an HMAC algorithm (HS256, HS384 or HS512, in any
/// case) and a secret of at least 32 bytes that is not a known default is
/// accepted: no error of the configuration is about `jwt.`, and none calls
/// the algorithm unsupported.
pub proof fn law_hmac_jwt_accepted(c: XiraConfig, f: PathFacts)
    requires
        c.jwt.enabled,
        uppercased(c.jwt.algorithm@) == "HS256"@ || uppercased(c.jwt.algorithm@) == "HS384"@ || uppercased(c.jwt.algorithm@)
            == "HS512"@,
        !default_jwt_secret(c.jwt.secret@),
        byte_len(c.jwt.secret@) >= 32,
    ensures
        forall|i: int| 0 <= i < config_errors(c, f).len() ==> !has_prefix(#[trigger] config_errors(c, f)[i], "jwt."@),
        forall|i: int|
            0 <= i < config_errors(c, f).len() ==> #[trigger] config_errors(c, f)[i] != "jwt.algorithm = "@ + uppercased(
                c.jwt.algorithm@,
            ) + " unsupported (HS256/HS384/HS512/RS256)"@,
{
    reveal_strlit("jwt.");
    reveal_strlit("jwt.algorithm = ");
    reveal_strlit("duplicate [[services]] prefix: ");
    let ps = c.services@.map_values(|s: ServiceConfig| s.prefix@);
    let a = when(default_admin_key(c.admin.api_key@) && external_bind(c.gateway.host@), admin_error(c.gateway.host@));
    let j = jwt_errors(c.jwt);
    let d = duplicate_prefix_errors(ps);
    let t = tls_errors(c.tls, f);
    let r = when(c.rate_limit.max_requests == 0, "rate_limit.max_requests = 0 blocks all traffic"@);
    let b = bus_errors(c.bus);
    let e = config_errors(c, f);
    assert(j.len() == 0);
    lemma_section_heads(c, f);
    lemma_duplicate_heads(ps);
    assert(all_begin(d, 'd')) by {
        assert forall|i: int| 0 <= i < d.len() implies #[trigger] d[i].len() > 0 && d[i][0] == 'd' by {
            assert(has_prefix(d[i], duplicate_head()));
            assert(d[i].subrange(0, duplicate_head().len() as int)[0] == d[i][0]);
        }
    }
    assert(e == a + j + d + t + r + b);
    let u = "jwt.algorithm = "@ + uppercased(c.jwt.algorithm@) + " unsupported (HS256/HS384/HS512/RS256)"@;
    assert(u[0] == 'j');
    assert forall|i: int| 0 <= i < e.len() implies e[i].len() > 0 && e[i][0] != 'j' by {
        let k = i;
        if k < a.len() {
            assert(e[k] == a[k]);
        } else if k < a.len() + d.len() {
            assert(e[k] == d[k - a.len()]);
        } else if k < a.len() + d.len() + t.len() {
            assert(e[k] == t[k - a.len() - d.len()]);
        } else if k < a.len() + d.len() + t.len() + r.len() {
            assert(e[k] == r[k - a.len() - d.len() - t.len()]);
        } else {
            assert(e[k] == b[k - a.len() - d.len() - t.len() - r.len()]);
        }
    }
    assert forall|i: int| 0 <= i < e.len() implies !has_prefix(#[trigger] e[i], "jwt."@) by {
        if has_prefix(e[i], "jwt."@) {
            assert(e[i].subrange(0, 4)[0] == e[i][0]);
        }
    }
    assert forall|i: int| 0 <= i < e.len() implies #[trigger] e[i] != u by {
        if e[i] == u {
            assert(e[i][0] == 'j');
        }
    }
}

/// An algorithm whose upper-case form is one of the four supported ones
/// (HS256, HS384, HS512, RS256) is never reported as unsupported, whatever
/// the rest of the configuration.
pub proof fn law_supported_algorithm_not_refused(c: XiraConfig, f: PathFacts)
    requires
        uppercased(c.jwt.algorithm@) == "HS256"@ || uppercased(c.jwt.algorithm@) == "HS384"@ || uppercased(c.jwt.algorithm@)
            == "HS512"@ || uppercased(c.jwt.algorithm@) == "RS256"@,
    ensures
        forall|i: int|
            0 <= i < config_errors(c, f).len() ==> #[trigger] config_errors(c, f)[i] != "jwt.algorithm = "@ + uppercased(
                c.jwt.algorithm@,
            ) + " unsupported (HS256/HS384/HS512/RS256)"@,
{
    reveal_strlit("jwt.algorithm = ");
    reveal_strlit(" unsupported (HS256/HS384/HS512/RS256)");
    reveal_strlit("duplicate [[services]] prefix: ");
    reveal_strlit("jwt.secret is a known default/example value — refuse to start with jwt.enabled=true");
    reveal_strlit("jwt.secret too short (");
    reveal_strlit("jwt.algorithm = RS256 but jwt.secret is not a valid RSA PEM");
    reveal_strlit("RS256");
    reveal_strlit("HS256");
    reveal_strlit("HS384");
    reveal_strlit("HS512");
    let up = uppercased(c.jwt.algorithm@);
    let ps = c.services@.map_values(|s: ServiceConfig| s.prefix@);
    let a = when(default_admin_key(c.admin.api_key@) && external_bind(c.gateway.host@), admin_error(c.gateway.host@));
    let j = jwt_errors(c.jwt);
    let d = duplicate_prefix_errors(ps);
    let t = tls_errors(c.tls, f);
    let r = when(c.rate_limit.max_requests == 0, "rate_limit.max_requests = 0 blocks all traffic"@);
    let b = bus_errors(c.bus);
    let e = config_errors(c, f);
    let u = "jwt.algorithm = "@ + up + " unsupported (HS256/HS384/HS512/RS256)"@;
    assert(up.len() == 5);
    assert(u.len() > 22);
    assert(u[0] == 'j');
    assert(u[4] == 'a');
    assert(u[22] == 'u');
    lemma_section_heads(c, f);
    lemma_duplicate_heads(ps);
    assert(all_begin(d, 'd')) by {
        assert forall|i: int| 0 <= i < d.len() implies #[trigger] d[i].len() > 0 && d[i][0] == 'd' by {
            assert(has_prefix(d[i], duplicate_head()));
            assert(d[i].subrange(0, duplicate_head().len() as int)[0] == d[i][0]);
        }
    }
    assert forall|i: int| 0 <= i < j.len() implies #[trigger] j[i] != u by {
        let jw = c.jwt;
        let sa = when(
            default_jwt_secret(jw.secret@),
            "jwt.secret is a known default/example value — refuse to start with jwt.enabled=true"@,
        );
        let short = "jwt.secret too short ("@ + decimal(byte_len(jw.secret@) as nat) + " bytes), HMAC algorithms require >= 32 bytes"@;
        let sb = if up == "HS256"@ || up == "HS384"@ || up == "HS512"@ {
            when(byte_len(jw.secret@) < 32, short)
        } else {
            when(!rsa_pem_valid(jw.secret@), "jwt.algorithm = RS256 but jwt.secret is not a valid RSA PEM"@)
        };
        assert(j == sa + sb);
        if i < sa.len() {
            assert(j[i][4] == 's');
        } else {
            assert(j[i] == sb[i - sa.len()]);
            if up == "HS256"@ || up == "HS384"@ || up == "HS512"@ {
                assert(short[4] == 's');
                assert(j[i][4] == 's');
            } else {
                assert(j[i][22] == 'b');
            }
        }
    }
    assert(e == a + j + d + t + r + b);
    assert forall|i: int| 0 <= i < e.len() implies #[trigger] e[i] != u by {
        let k = i;
        if k < a.len() {
            assert(e[k] == a[k]);
        } else if k < a.len() + j.len() {
            assert(e[k] == j[k - a.len()]);
        } else if k < a.len() + j.len() + d.len() {
            assert(e[k] == d[k - a.len() - j.len()]);
        } else if k < a.len() + j.len() + d.len() + t.len() {
            assert(e[k] == t[k - a.len() - j.len() - d.len()]);
        } else if k < a.len() + j.len() + d.len() + t.len() + r.len() {
            assert(e[k] == r[k - a.len() - j.len() - d.len() - t.len()]);
        } else {
            assert(e[k] == b[k - a.len() - j.len() - d.len() - t.len() - r.len()]);
        }
    }
}

/// An enabled JWT setting with an HMAC algorithm and a secret shorter than
/// 32 bytes is refused with the message naming the secret's length.
pub proof fn law_short_hmac_secret_refused(c: XiraConfig, f: PathFacts)
    requires
        c.jwt.enabled,
        uppercased(c.jwt.algorithm@) == "HS256"@ || uppercased(c.jwt.algorithm@) == "HS384"@ || uppercased(c.jwt.algorithm@)
            == "HS512"@,
        byte_len(c.jwt.secret@) < 32,
    ensures
        config_errors(c, f).contains(
            "jwt.secret too short ("@ + decimal(byte_len(c.jwt.secret@) as nat) + " bytes), HMAC algorithms require >= 32 bytes"@,
        ),
{
    let ps = c.services@.map_values(|s: ServiceConfig| s.prefix@);
    let a = when(default_admin_key(c.admin.api_key@) && external_bind(c.gateway.host@), admin_error(c.gateway.host@));
    let j = jwt_errors(c.jwt);
    let d = duplicate_prefix_errors(ps);
    let t = tls_errors(c.tls, f);
    let r = when(c.rate_limit.max_requests == 0, "rate_limit.max_requests = 0 blocks all traffic"@);
    let b = bus_errors(c.bus);
    let e = config_errors(c, f);
    let m = "jwt.secret too short ("@ + decimal(byte_len(c.jwt.secret@) as nat) + " bytes), HMAC algorithms require >= 32 bytes"@;
    let sa = when(
        default_jwt_secret(c.jwt.secret@),
        "jwt.secret is a known default/example value — refuse to start with jwt.enabled=true"@,
    );
    assert(j == sa + seq![m]);
    assert(e == a + j + d + t + r + b);
    let k = a.len() + sa.len();
    assert(j[sa.len() as int] == m);
    assert(e[k as int] == m);
}

/// The warnings of a configuration, in the order they are checked.
pub open spec fn config_warnings(c: XiraConfig, f: PathFacts) -> Seq<Seq<char>> {
    when(
        default_admin_key(c.admin.api_key@) && !external_bind(c.gateway.host@),
        "admin.api_key is a known default; change before deploying externally"@,
    ) + when(
        c.cors.allowed_origins@.len() == 0,
        "cors.allowed_origins is empty — browser requests will be rejected by CORS"@,
    ) + when(
        c.identity.password_min_length < 8,
        "identity.password_min_length = "@ + decimal(c.identity.password_min_length as nat)
            + " is below recommended 8"@,
    ) + when(
        c.plugins.enabled && !f.plugin_dir_exists,
        "plugins.enabled = true but directory not found: "@ + c.plugins.directory@,
    ) + when(
        c.cache.enabled && c.cache.max_entries == 0,
        "cache.enabled = true but cache.max_entries = 0 (cache effectively off)"@,
    )
}

/// Texts of a list of strings.
pub open spec fn texts(v: Seq<String>) -> Seq<Seq<char>> {
    v.map_values(|s: String| s@)
}

fn push_text(v: &mut Vec<String>, s: String)
    ensures
        texts(final(v)@) == texts(old(v)@).push(s@),
{
    v.push(s);
    assert(texts(v@) =~= texts(old(v)@).push(s@));
}

fn prefix_seen(services: &Vec<ServiceConfig>, upto: usize, prefix: &str) -> (r: bool)
    requires
        upto <= services@.len(),
    ensures
        r == services@.map_values(|s: ServiceConfig| s.prefix@).subrange(0, upto as int).contains(prefix@),
{
    let ghost ps = services@.map_values(|s: ServiceConfig| s.prefix@);
    let p = chars_of(prefix);
    let mut j: usize = 0;
    while j < upto
        invariant
            j <= upto <= services@.len(),
            p@ == prefix@,
            ps == services@.map_values(|s: ServiceConfig| s.prefix@),
            forall|q: int| 0 <= q < j ==> ps[q] != prefix@,
        decreases upto - j,
    {
        if eq_str(p.as_slice(), services[j].prefix.as_str()) {
            assert(ps.subrange(0, upto as int)[j as int] == prefix@);
            return true;
        }
        j = j + 1;
    }
    proof {
        if ps.subrange(0, upto as int).contains(prefix@) {
            let q = choose|q: int| 0 <= q < upto && ps.subrange(0, upto as int)[q] == prefix@;
            assert(ps[q] == prefix@);
        }
    }
    false
}

fn jwt_checks(j: &JwtConfig, errors: &mut Vec<String>)
    ensures
        texts(final(errors)@) == texts(old(errors)@) + jwt_errors(*j),
{
    if !j.enabled {
        assert(texts(errors@) =~= texts(old(errors)@) + jwt_errors(*j));
        return;
    }
    if is_default_jwt_secret(j.secret.as_str()) {
        push_text(errors, text("jwt.secret is a known default/example value — refuse to start with jwt.enabled=true"));
    }
    let ghost mid = texts(errors@);
    let up = to_uppercase(j.algorithm.as_str());
    let u = chars_of(up.as_str());
    if eq_str(u.as_slice(), "HS256") || eq_str(u.as_slice(), "HS384") || eq_str(u.as_slice(), "HS512") {
        let n = j.secret.as_str().len();
        if n < 32 {
            let d = decimal_text(n as u64);
            let a = concat(chars_of("jwt.secret too short (").as_slice(), d.as_slice());
            let b = concat(a.as_slice(), chars_of(" bytes), HMAC algorithms require >= 32 bytes").as_slice());
            push_text(errors, string_of(b.as_slice()));
        }
    } else if eq_str(u.as_slice(), "RS256") {
        if !rsa_pem_ok(j.secret.as_str()) {
            push_text(errors, text("jwt.algorithm = RS256 but jwt.secret is not a valid RSA PEM"));
        }
    } else {
        push_text(errors, join3("jwt.algorithm = ", up.as_str(), " unsupported (HS256/HS384/HS512/RS256)"));
    }
    assert(texts(errors@) =~= texts(old(errors)@) + jwt_errors(*j));
}

fn tls_checks(t: &Option<TlsConfig>, f: &PathFacts, errors: &mut Vec<String>)
    ensures
        texts(final(errors)@) == texts(old(errors)@) + tls_errors(*t, *f),
{
    match t {
        Some(tls) => {
            if tls.enabled {
                if !f.cert_exists {
                    push_text(errors, join3("tls.cert_path not found: ", tls.cert_path.as_str(), ""));
                }
                if !f.key_exists {
                    push_text(errors, join3("tls.key_path not found: ", tls.key_path.as_str(), ""));
                }
                if tls.mtls_enabled {
                    match &tls.client_ca_path {
                        Some(ca) => {
                            if !f.client_ca_exists {
                                push_text(errors, join3("tls.client_ca_path not found: ", ca.as_str(), ""));
                            }
                        },
                        None => {
                            push_text(errors, text("tls.mtls_enabled = true requires client_ca_path"));
                        },
                    }
                }
            }
        },
        None => {},
    }
    proof {
        reveal_strlit("");
    }
    assert(texts(errors@) =~= texts(old(errors)@) + tls_errors(*t, *f));
}

fn bus_checks(b: &BusConfig, errors: &mut Vec<String>)
    ensures
        texts(final(errors)@) == texts(old(errors)@) + bus_errors(*b),
{
    let backend = chars_of(b.backend.as_str());
    if eq_str(backend.as_slice(), "noop") {
    } else if eq_str(backend.as_slice(), "redis") {
        let url = chars_of(b.redis_url.as_str());
        if url.len() == 0 {
            push_text(errors, text("bus.backend = \"redis\" requires bus.redis_url"));
        } else if !starts_with(url.as_slice(), chars_of("redis://").as_slice()) && !starts_with(
            url.as_slice(),
            chars_of("rediss://").as_slice(),
        ) {
            push_text(
                errors,
                join3("bus.redis_url must start with redis:// or rediss://, got: ", b.redis_url.as_str(), ""),
            );
        }
    } else {
        push_text(errors, join3("bus.backend = ", b.backend.as_str(), " unsupported (noop|redis)"));
    }
    proof {
        reveal_strlit("");
    }
    assert(texts(errors@) =~= texts(old(errors)@) + bus_errors(*b));
}

impl XiraConfig {
    /// Checks the configuration before boot: a default admin key on an
    /// external bind, weak or unsupported JWT settings, repeated service
    /// prefixes, missing TLS files, a zero rate limit and a bad bus are
    /// errors; the rest is warned about.
    pub fn validate(&self, paths: &PathFacts) -> (r: ValidationReport)
        ensures
            texts(r.errors@) == config_errors(*self, *paths),
            texts(r.warnings@) == config_warnings(*self, *paths),
    {
        let mut errors: Vec<String> = Vec::new();
        let mut warnings: Vec<String> = Vec::new();
        let default_key = is_default_admin_key(self.admin.api_key.as_str());
        let external = binds_externally(self.gateway.host.as_str());
        if default_key {
            if external {
                push_text(
                    &mut errors,
                    join3(
                        "admin.api_key is a known default and gateway.host = ",
                        self.gateway.host.as_str(),
                        " binds externally — refuse to start",
                    ),
                );
            } else {
                push_text(&mut warnings, text("admin.api_key is a known default; change before deploying externally"));
            }
        }
        let ghost e1 = texts(errors@);
        assert(e1 =~= when(default_admin_key(self.admin.api_key@) && external_bind(self.gateway.host@), admin_error(self.gateway.host@)));
        jwt_checks(&self.jwt, &mut errors);
        if self.cors.allowed_origins.len() == 0 {
            push_text(&mut warnings, text("cors.allowed_origins is empty — browser requests will be rejected by CORS"));
        }
        let ghost ps = self.services@.map_values(|s: ServiceConfig| s.prefix@);
        let ghost e2 = texts(errors@);
        let mut i: usize = 0;
        while i < self.services.len()
            invariant
                i <= self.services@.len(),
                ps == self.services@.map_values(|s: ServiceConfig| s.prefix@),
                texts(errors@) == e2 + duplicate_prefix_errors(ps.subrange(0, i as int)),
            decreases self.services@.len() - i,
        {
            let ghost before = texts(errors@);
            proof {
                assert(ps.subrange(0, i + 1).drop_last() =~= ps.subrange(0, i as int));
                assert(ps.subrange(0, i + 1).last() == ps[i as int]);
            }
            if prefix_seen(&self.services, i, self.services[i].prefix.as_str()) {
                push_text(
                    &mut errors,
                    join3("duplicate [[services]] prefix: ", self.services[i].prefix.as_str(), " (each prefix must be unique)"),
                );
                assert(texts(errors@) =~= e2 + duplicate_prefix_errors(ps.subrange(0, i + 1)));
            } else {
                assert(texts(errors@) =~= e2 + duplicate_prefix_errors(ps.subrange(0, i + 1)));
            }
            i = i + 1;
        }
        proof {
            assert(ps.subrange(0, ps.len() as int) =~= ps);
        }
        tls_checks(&self.tls, paths, &mut errors);
        if self.identity.password_min_length < 8 {
            let d = decimal_text(self.identity.password_min_length as u64);
            let a = concat(chars_of("identity.password_min_length = ").as_slice(), d.as_slice());
            let b = concat(a.as_slice(), chars_of(" is below recommended 8").as_slice());
            push_text(&mut warnings, string_of(b.as_slice()));
        }
        if self.plugins.enabled && !paths.plugin_dir_exists {
            push_text(&mut warnings, join3("plugins.enabled = true but directory not found: ", self.plugins.directory.as_str(), ""));
        }
        if self.rate_limit.max_requests == 0 {
            push_text(&mut errors, text("rate_limit.max_requests = 0 blocks all traffic"));
        }
        if self.cache.enabled && self.cache.max_entries == 0 {
            push_text(&mut warnings, text("cache.enabled = true but cache.max_entries = 0 (cache effectively off)"));
        }
        bus_checks(&self.bus, &mut errors);
        proof {
            reveal_strlit("");
        }
        assert(texts(errors@) =~= config_errors(*self, *paths));
        assert(texts(warnings@) =~= config_warnings(*self, *paths));
        ValidationReport { errors, warnings }
    }
}

/// A default admin key on an externally bound listener always refuses the boot.
pub proof fn law_default_key_external_refused(c: XiraConfig, f: PathFacts)
    requires
        default_admin_key(c.admin.api_key@),
        external_bind(c.gateway.host@),
    ensures
        config_errors(c, f).len() > 0,
        config_errors(c, f)[0] == admin_error(c.gateway.host@),
{
}

/// JWT turned on with a known default secret always refuses the boot.
pub proof fn law_default_jwt_secret_refused(c: XiraConfig, f: PathFacts)
    requires
        c.jwt.enabled,
        default_jwt_secret(c.jwt.secret@),
    ensures
        config_errors(c, f).len() > 0,
{
    let pre = when(default_admin_key(c.admin.api_key@) && external_bind(c.gateway.host@), admin_error(c.gateway.host@));
    assert(jwt_errors(c.jwt).len() > 0);
    assert((pre + jwt_errors(c.jwt)).len() > 0);
}

impl Default for BusConfig {
    fn default() -> (r: Self)
        ensures
            r.backend@ == "noop"@,
            r.redis_url@.len() == 0,
    {
        BusConfig {
            backend: text("noop"),
            redis_url: String::new(),
        }
    }
}

impl Default for AuditConfig {
    fn default() -> (r: Self)
        ensures
            r.file_path is None,
            r.webhook_url is None,
            r.webhook_headers@.len() == 0,
            r.buffer_size == 0,
    {
        AuditConfig {
            file_path: None,
            webhook_url: None,
            webhook_headers: Vec::new(),
            buffer_size: 0,
        }
    }
}

impl Default for CorsConfig {
    fn default() -> (r: Self)
        ensures
            texts(r.allowed_origins@) == seq!["http://localhost"@, "http://127.0.0.1"@],
            !r.allow_credentials,
            r.max_age == 3600,
    {
        let mut origins: Vec<String> = Vec::new();
        push_text(&mut origins, text("http://localhost"));
        push_text(&mut origins, text("http://127.0.0.1"));
        assert(texts(origins@) =~= seq!["http://localhost"@, "http://127.0.0.1"@]);
        CorsConfig { allowed_origins: origins, allow_credentials: false, max_age: 3600 }
    }
}

impl Default for MetricsConfig {
    fn default() -> (r: Self)
        ensures
            !r.enabled,
            r.path@.len() == 0,
    {
        MetricsConfig {
            enabled: false,
            path: String::new(),
        }
    }
}

impl Default for LoggingConfig {
    fn default() -> (r: Self)
        ensures
            !r.file_enabled,
            r.file_path@.len() == 0,
            r.rotation@.len() == 0,
            r.level@.len() == 0,
    {
        LoggingConfig {
            file_enabled: false,
            file_path: String::new(),
            rotation: String::new(),
            level: String::new(),
        }
    }
}

impl Default for AlertingConfig {
    fn default() -> (r: Self)
        ensures
            !r.enabled,
            r.webhook_url is None,
            !r.on_service_down,
            !r.on_service_up,
    {
        AlertingConfig {
            enabled: false,
            webhook_url: None,
            on_service_down: false,
            on_service_up: false,
        }
    }
}

impl Default for RateLimitConfig {
    fn default() -> (r: Self)
        ensures
            r.max_requests == 100,
            r.window_secs == 60,
            r.routes@.len() == 0,
            !r.trust_xff,
    {
        RateLimitConfig {
            max_requests: 100,
            window_secs: 60,
            routes: Vec::new(),
            trust_xff: false,
        }
    }
}

impl Default for CacheConfig {
    fn default() -> (r: Self)
        ensures
            !r.enabled,
            r.ttl_secs == 0,
            r.max_entries == 0,
    {
        CacheConfig {
            enabled: false,
            ttl_secs: 0,
            max_entries: 0,
        }
    }
}

impl Default for JwtConfig {
    fn default() -> (r: Self)
        ensures
            !r.enabled,
            r.secret@.len() == 0,
            r.algorithm@.len() == 0,
            r.issuer is None,
    {
        JwtConfig {
            enabled: false,
            secret: String::new(),
            algorithm: String::new(),
            issuer: None,
        }
    }
}

impl Default for OAuth2Config {
    fn default() -> (r: Self)
        ensures
            !r.enabled,
            r.issuer_url@.len() == 0,
            r.introspection_url is None,
            r.client_id is None,
            r.client_secret is None,
            r.jwks_url is None,
    {
        OAuth2Config {
            enabled: false,
            issuer_url: String::new(),
            introspection_url: None,
            client_id: None,
            client_secret: None,
            jwks_url: None,
        }
    }
}

impl Default for IpFilterConfig {
    fn default() -> (r: Self)
        ensures
            !r.enabled,
            r.whitelist@.len() == 0,
            r.blacklist@.len() == 0,
    {
        IpFilterConfig {
            enabled: false,
            whitelist: Vec::new(),
            blacklist: Vec::new(),
        }
    }
}

impl Default for CircuitBreakerConfig {
    fn default() -> (r: Self)
        ensures
            r.failure_threshold == 5,
            r.reset_timeout_secs == 30,
            r.half_open_max_requests == 3,
    {
        CircuitBreakerConfig {
            failure_threshold: 5,
            reset_timeout_secs: 30,
            half_open_max_requests: 3,
        }
    }
}

impl Default for RetryConfig {
    fn default() -> (r: Self)
        ensures
            r.max_retries == 3,
            r.delay_ms == 100,
            r.backoff_multiplier_bits == 0x4000000000000000,
    {
        RetryConfig {
            max_retries: 3,
            delay_ms: 100,
            backoff_multiplier_bits: 0x4000000000000000,
        }
    }
}

impl Default for PluginConfig {
    fn default() -> (r: Self)
        ensures
            !r.enabled,
            r.directory@.len() == 0,
    {
        PluginConfig {
            enabled: false,
            directory: String::new(),
        }
    }
}

impl Default for GrpcConfig {
    fn default() -> (r: Self)
        ensures
            !r.enabled,
            r.port == 0,
    {
        GrpcConfig {
            enabled: false,
            port: 0,
        }
    }
}

impl Default for DiscoveryConfig {
    fn default() -> (r: Self)
        ensures
            !r.enabled,
            r.backend@.len() == 0,
            r.consul_url is None,
            r.consul_datacenter is None,
            r.dns_domain is None,
            r.interval_secs == 0,
            !r.mesh_enabled,
            !r.docker_enabled,
            r.docker_socket@.len() == 0,
    {
        DiscoveryConfig {
            enabled: false,
            backend: String::new(),
            consul_url: None,
            consul_datacenter: None,
            dns_domain: None,
            interval_secs: 0,
            mesh_enabled: false,
            docker_enabled: false,
            docker_socket: String::new(),
        }
    }
}

impl Default for RedisConfig {
    fn default() -> (r: Self)
        ensures
            !r.enabled,
            r.url is None,
    {
        RedisConfig {
            enabled: false,
            url: None,
        }
    }
}

impl Default for TelemetryConfig {
    fn default() -> (r: Self)
        ensures
            !r.enabled,
            r.otlp_endpoint@.len() == 0,
            r.service_name@.len() == 0,
    {
        TelemetryConfig {
            enabled: false,
            otlp_endpoint: String::new(),
            service_name: String::new(),
        }
    }
}

impl Default for WafConfig {
    fn default() -> (r: Self)
        ensures
            r.enabled,
            r.mode@ == "block"@,
            r.custom_block_patterns@.len() == 0,
    {
        WafConfig {
            enabled: true,
            mode: text("block"),
            custom_block_patterns: Vec::new(),
        }
    }
}

impl Default for BotDetectionConfig {
    fn default() -> (r: Self)
        ensures
            r.enabled,
            !r.block_bots,
            r.crawl_rate_limit == 60,
    {
        BotDetectionConfig {
            enabled: true,
            block_bots: false,
            crawl_rate_limit: 60,
        }
    }
}

impl Default for IdentityConfig {
    fn default() -> (r: Self)
        ensures
            r.max_sessions_per_user == 5,
            r.password_min_length == 8,
            r.registration_enabled,
    {
        IdentityConfig {
            max_sessions_per_user: 5,
            password_min_length: 8,
            registration_enabled: true,
        }
    }
}

impl Default for ObservabilityConfig {
    fn default() -> (r: Self)
        ensures
            r.log_max_entries == 50000,
            r.uptime_history_days == 90,
            r.sla_target_uptime_bits == 0x4058f9999999999a,
            r.sla_target_latency_ms_bits == 0x407f400000000000,
    {
        ObservabilityConfig {
            log_max_entries: 50000,
            uptime_history_days: 90,
            sla_target_uptime_bits: 0x4058f9999999999a,
            sla_target_latency_ms_bits: 0x407f400000000000,
        }
    }
}

impl Default for TransformConfig {
    fn default() -> (r: Self)
        ensures
            r.add_request_headers@.len() == 0,
            r.remove_request_headers@.len() == 0,
            r.add_response_headers@.len() == 0,
            r.remove_response_headers@.len() == 0,
    {
        TransformConfig {
            add_request_headers: Vec::new(),
            remove_request_headers: Vec::new(),
            add_response_headers: Vec::new(),
            remove_response_headers: Vec::new(),
        }
    }
}

impl Default for ValidationReport {
    fn default() -> (r: Self)
        ensures
            r.errors@.len() == 0,
            r.warnings@.len() == 0,
    {
        ValidationReport {
            errors: Vec::new(),
            warnings: Vec::new(),
        }
    }
}

impl Default for XiraConfig {
    /// Listens on 0.0.0.0:9000 with four workers and the default admin key;
    /// every other section takes its own default.
    fn default() -> (r: Self)
        ensures
            r.gateway.host@ == "0.0.0.0"@,
            r.gateway.port == 9000,
            r.gateway.workers == 4,
            r.admin.api_key@ == "xira-default-key"@,
            r.admin.enabled,
            r.health.interval_secs == 30,
            r.health.timeout_secs == 5,
            r.tls is None,
            r.services@.len() == 0,
            r.rate_limit.max_requests == 100,
            !r.jwt.enabled,
            !r.cache.enabled,
            !r.plugins.enabled,
            r.bus.backend@ == "noop"@,
            r.identity.password_min_length == 8,
            texts(r.cors.allowed_origins@) == seq!["http://localhost"@, "http://127.0.0.1"@],
    {
        XiraConfig {
            gateway: GatewayConfig { host: text("0.0.0.0"), port: 9000, workers: 4 },
            admin: AdminConfig { api_key: text("xira-default-key"), enabled: true },
            health: HealthConfig { interval_secs: 30, timeout_secs: 5 },
            tls: None,
            metrics: MetricsConfig::default(),
            logging: LoggingConfig::default(),
            alerting: AlertingConfig::default(),
            rate_limit: RateLimitConfig::default(),
            cache: CacheConfig::default(),
            jwt: JwtConfig::default(),
            oauth2: OAuth2Config::default(),
            ip_filter: IpFilterConfig::default(),
            circuit_breaker: CircuitBreakerConfig::default(),
            retry: RetryConfig::default(),
            plugins: PluginConfig::default(),
            grpc: GrpcConfig::default(),
            services: Vec::new(),
            discovery: DiscoveryConfig::default(),
            redis: RedisConfig::default(),
            telemetry: TelemetryConfig::default(),
            waf: WafConfig::default(),
            bot_detection: BotDetectionConfig::default(),
            identity: IdentityConfig::default(),
            observability: ObservabilityConfig::default(),
            cors: CorsConfig::default(),
            audit: AuditConfig::default(),
            bus: BusConfig::default(),
        }
    }
}

/// The shipped defaults boot without errors on a loopback bind only: with
/// the default admin key, the external default bind is refused.
pub proof fn law_defaults_refused_externally(c: XiraConfig, f: PathFacts)
    requires
        c.admin.api_key@ == "xira-default-key"@,
        c.gateway.host@ == "0.0.0.0"@,
    ensures
        config_errors(c, f).len() > 0,
{
    reveal_strlit("0.0.0.0");
    reveal_strlit("127.0.0.1");
    reveal_strlit("localhost");
    reveal_strlit("::1");
    reveal_strlit("xira-default-key");
    reveal_strlit("");
    assert(default_admin_key(c.admin.api_key@));
    assert(c.gateway.host@.len() == 7);
    assert("127.0.0.1"@.len() == 9);
    assert("localhost"@.len() == 9);
    assert("::1"@.len() == 3);
    assert(external_bind(c.gateway.host@));
    law_default_key_external_refused(c, f);
}

} // verus!
