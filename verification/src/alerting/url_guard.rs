//! Outbound address guard against server-side request forgery.
//!
//! Only http and https are allowed. Cloud metadata addresses and names are
//! refused at every level; the strict level, for targets an attacker may
//! choose (webhooks, scheduled calls), also refuses loopback, private,
//! link-local, carrier-grade NAT, documentation, multicast, broadcast and
//! unspecified addresses. Parsing the URL and resolving the host are done by
//! the caller, which hands the parts and the addresses over.
use vstd::prelude::*;
use crate::text::{chars_of, string_of, concat, eq_str, to_lower, lower_seq};

verus! {

/// An IP address: four octets, or eight 16-bit segments.
#[derive(Debug, Clone, Copy)]
pub enum IpAddr {
    V4([u8; 4]),
    V6([u16; 8]),
}

/// How much of the address space is refused.
#[derive(Debug, Clone, Copy, PartialEq, Eq, Structural)]
pub enum GuardLevel {
    /// Everything internal is refused.
    Strict,
    /// Only cloud metadata is refused; private and loopback upstreams are fine.
    UpstreamOnly,
}

/// Why a URL was refused.
#[derive(Debug)]
pub enum UrlGuardError {
    Invalid(String),
    BadScheme(String),
    MissingHost,
    DnsError(String),
    Forbidden(String),
}

/// 127.0.0.0/8 (`Ipv4Addr::is_loopback`).
pub open spec fn v4_loopback(o: [u8; 4]) -> bool {
    o[0] == 127
}

/// 10/8, 172.16/12 and 192.168/16 (`Ipv4Addr::is_private`).
pub open spec fn v4_private(o: [u8; 4]) -> bool {
    o[0] == 10 || (o[0] == 172 && 16 <= o[1] <= 31) || (o[0] == 192 && o[1] == 168)
}

/// 169.254/16 (`Ipv4Addr::is_link_local`).
pub open spec fn v4_link_local(o: [u8; 4]) -> bool {
    o[0] == 169 && o[1] == 254
}

/// 255.255.255.255 (`Ipv4Addr::is_broadcast`).
pub open spec fn v4_broadcast(o: [u8; 4]) -> bool {
    o[0] == 255 && o[1] == 255 && o[2] == 255 && o[3] == 255
}

/// 192.0.2/24, 198.51.100/24 and 203.0.113/24 (`Ipv4Addr::is_documentation`).
pub open spec fn v4_documentation(o: [u8; 4]) -> bool {
    (o[0] == 192 && o[1] == 0 && o[2] == 2) || (o[0] == 198 && o[1] == 51 && o[2] == 100) || (o[0] == 203 && o[1] == 0
        && o[2] == 113)
}

/// 0.0.0.0 (`Ipv4Addr::is_unspecified`).
pub open spec fn v4_unspecified(o: [u8; 4]) -> bool {
    o[0] == 0 && o[1] == 0 && o[2] == 0 && o[3] == 0
}

/// 224/4 (`Ipv4Addr::is_multicast`).
pub open spec fn v4_multicast(o: [u8; 4]) -> bool {
    224 <= o[0] <= 239
}

/// A public, routable IPv4 address: none of the above, not carrier-grade NAT
/// (100.64/10) and not in 0/8.
pub open spec fn v4_safe(o: [u8; 4]) -> bool {
    !v4_loopback(o) && !v4_private(o) && !v4_link_local(o) && !v4_broadcast(o) && !v4_documentation(o)
        && !v4_unspecified(o) && !v4_multicast(o) && !(o[0] == 100 && 64 <= o[1] <= 127) && o[0] != 0
}

/// The IPv4 address inside an IPv4-mapped IPv6 address `::ffff:a.b.c.d`.
pub open spec fn mapped_v4(s: [u16; 8]) -> [u8; 4] {
    [(s[6] >> 8u16) as u8, (s[6] & 0xffu16) as u8, (s[7] >> 8u16) as u8, (s[7] & 0xffu16) as u8]
}

/// Whether the address has the IPv4-mapped prefix `::ffff:0:0/96`.
pub open spec fn v4_mapped(s: [u16; 8]) -> bool {
    s[0] == 0 && s[1] == 0 && s[2] == 0 && s[3] == 0 && s[4] == 0 && s[5] == 0xffff
}

/// A public IPv6 address: not `::1`, `::`, multicast (ff00::/8), unique local
/// (fc00::/7) or link-local (fe80::/10); a mapped IPv4 address is judged as IPv4.
pub open spec fn v6_safe(s: [u16; 8]) -> bool {
    let loopback = s[0] == 0 && s[1] == 0 && s[2] == 0 && s[3] == 0 && s[4] == 0 && s[5] == 0 && s[6] == 0 && s[7] == 1;
    let unspecified = s[0] == 0 && s[1] == 0 && s[2] == 0 && s[3] == 0 && s[4] == 0 && s[5] == 0 && s[6] == 0 && s[7] == 0;
    let multicast = (s[0] & 0xff00u16) == 0xff00u16;
    !loopback && !unspecified && !multicast && (s[0] & 0xfe00u16) != 0xfc00u16 && (s[0] & 0xffc0u16) != 0xfe80u16 && (
    v4_mapped(s) ==> v4_safe(mapped_v4(s)))
}

/// A public, routable address.
pub open spec fn safe_ip(ip: IpAddr) -> bool {
    match ip {
        IpAddr::V4(o) => v4_safe(o),
        IpAddr::V6(s) => v6_safe(s),
    }
}

/// A cloud metadata address: 169.254.169.254, or fd00:ec2::/32.
pub open spec fn metadata_ip(ip: IpAddr) -> bool {
    match ip {
        IpAddr::V4(o) => o[0] == 169 && o[1] == 254 && o[2] == 169 && o[3] == 254,
        IpAddr::V6(s) => s[0] == 0xfd00 && s[1] == 0xec2,
    }
}

/// Whether the address may be called at this level.
pub open spec fn ip_allowed(ip: IpAddr, level: GuardLevel) -> bool {
    !metadata_ip(ip) && (level == GuardLevel::UpstreamOnly || safe_ip(ip))
}

fn v4_is_safe(o: [u8; 4]) -> (r: bool)
    ensures
        r == v4_safe(o),
{
    let (a, b, c, d) = (o[0], o[1], o[2], o[3]);
    if a == 127 || a == 10 || (a == 172 && 16 <= b && b <= 31) || (a == 192 && b == 168) {
        return false;
    }
    if (a == 169 && b == 254) || (a == 255 && b == 255 && c == 255 && d == 255) {
        return false;
    }
    if (a == 192 && b == 0 && c == 2) || (a == 198 && b == 51 && c == 100) || (a == 203 && b == 0 && c == 113) {
        return false;
    }
    if (a == 0 && b == 0 && c == 0 && d == 0) || (224 <= a && a <= 239) {
        return false;
    }
    if a == 100 && 64 <= b && b <= 127 {
        return false;
    }
    a != 0
}

/// Whether the address is public and routable.
pub fn is_safe_ip(ip: &IpAddr) -> (r: bool)
    ensures
        r == safe_ip(*ip),
{
    match ip {
        IpAddr::V4(o) => v4_is_safe(*o),
        IpAddr::V6(s) => {
            let s = *s;
            let zero_head = s[0] == 0 && s[1] == 0 && s[2] == 0 && s[3] == 0 && s[4] == 0 && s[5] == 0 && s[6] == 0;
            if zero_head && (s[7] == 1 || s[7] == 0) {
                return false;
            }
            if (s[0] & 0xff00u16) == 0xff00u16 {
                return false;
            }
            if (s[0] & 0xfe00u16) == 0xfc00u16 {
                return false;
            }
            if (s[0] & 0xffc0u16) == 0xfe80u16 {
                return false;
            }
            if s[0] == 0 && s[1] == 0 && s[2] == 0 && s[3] == 0 && s[4] == 0 && s[5] == 0xffff {
                let v4 = [(s[6] >> 8u16) as u8, (s[6] & 0xffu16) as u8, (s[7] >> 8u16) as u8, (s[7] & 0xffu16) as u8];
                assert(v4 == mapped_v4(s));
                return v4_is_safe(v4);
            }
            true
        },
    }
}

/// Whether the address is a cloud metadata address.
pub fn is_metadata_ip(ip: &IpAddr) -> (r: bool)
    ensures
        r == metadata_ip(*ip),
{
    match ip {
        IpAddr::V4(o) => o[0] == 169 && o[1] == 254 && o[2] == 169 && o[3] == 254,
        IpAddr::V6(s) => s[0] == 0xfd00 && s[1] == 0xec2,
    }
}

/// Whether the address may be called at this level.
pub fn is_ip_allowed(ip: &IpAddr, level: GuardLevel) -> (r: bool)
    ensures
        r == ip_allowed(*ip, level),
{
    if is_metadata_ip(ip) {
        return false;
    }
    if level == GuardLevel::UpstreamOnly {
        return true;
    }
    is_safe_ip(ip)
}

/// Host names of cloud metadata services.
pub open spec fn metadata_hostname(host: Seq<char>) -> bool {
    host == "metadata.google.internal"@ || host == "metadata.goog"@ || host == "instance-data"@ || host == "metadata"@
}

/// Whether a (lower-cased) host name is a cloud metadata name.
pub fn is_blocked_metadata_hostname(host: &str) -> (r: bool)
    ensures
        r == metadata_hostname(host@),
{
    let h = chars_of(host);
    eq_str(h.as_slice(), "metadata.google.internal") || eq_str(h.as_slice(), "metadata.goog") || eq_str(
        h.as_slice(),
        "instance-data",
    ) || eq_str(h.as_slice(), "metadata")
}

/// Whether a (lower-cased) host name is refused at the strict level only.
pub fn is_blocked_hostname_strict(host: &str) -> (r: bool)
    ensures
        r == (host@ == "localhost"@),
{
    let h = chars_of(host);
    eq_str(h.as_slice(), "localhost")
}

fn prefixed(prefix: &str, text: &str) -> (r: String)
    ensures
        r@ == prefix@ + text@,
{
    let p = chars_of(prefix);
    let t = chars_of(text);
    let all = concat(p.as_slice(), t.as_slice());
    string_of(all.as_slice())
}

/// The host-name checks of a URL, given its scheme and host.
pub open spec fn target_ok(scheme: Seq<char>, host: Option<Seq<char>>, level: GuardLevel) -> bool {
    &&& (scheme == "http"@ || scheme == "https"@)
    &&& host is Some
    &&& !metadata_hostname(lower_seq(host->0))
    &&& !(level == GuardLevel::Strict && lower_seq(host->0) == "localhost"@)
}

/// Checks the scheme and host of a URL: only http and https, a host that is
/// present, and no metadata name (nor `localhost` at the strict level),
/// compared case-insensitively.
pub fn check_target(scheme: &str, host: Option<&str>, level: GuardLevel) -> (r: Result<(), UrlGuardError>)
    ensures
        r is Ok <==> target_ok(scheme@, match host { Some(h) => Some(h@), None => None }, level),
        match r {
            Ok(_) => true,
            Err(UrlGuardError::BadScheme(s)) => s@ == scheme@ && scheme@ != "http"@ && scheme@ != "https"@,
            Err(UrlGuardError::MissingHost) => (scheme@ == "http"@ || scheme@ == "https"@) && host is None,
            Err(UrlGuardError::Forbidden(m)) => {
                &&& (scheme@ == "http"@ || scheme@ == "https"@)
                &&& host is Some
                &&& if metadata_hostname(lower_seq(host->0@)) {
                    m@ == "blocked metadata hostname: "@ + host->0@
                } else {
                    level == GuardLevel::Strict && lower_seq(host->0@) == "localhost"@ && m@ == "blocked hostname: "@
                        + host->0@
                }
            },
            Err(_) => false,
        },
{
    let sc = chars_of(scheme);
    if !eq_str(sc.as_slice(), "http") && !eq_str(sc.as_slice(), "https") {
        return Err(UrlGuardError::BadScheme(string_of(sc.as_slice())));
    }
    match host {
        None => Err(UrlGuardError::MissingHost),
        Some(h) => {
            let hc = chars_of(h);
            let lower = to_lower(hc.as_slice());
            let lower_text = string_of(lower.as_slice());
            if is_blocked_metadata_hostname(lower_text.as_str()) {
                return Err(UrlGuardError::Forbidden(prefixed("blocked metadata hostname: ", h)));
            }
            if level == GuardLevel::Strict && is_blocked_hostname_strict(lower_text.as_str()) {
                return Err(UrlGuardError::Forbidden(prefixed("blocked hostname: ", h)));
            }
            Ok(())
        },
    }
}

/// Checks a host that is an IP literal; `ip_text` is the address as written
/// back in refusals.
pub fn check_literal(ip: &IpAddr, ip_text: &str, level: GuardLevel) -> (r: Result<(), UrlGuardError>)
    ensures
        r is Ok <==> ip_allowed(*ip, level),
        r matches Err(e) ==> e matches UrlGuardError::Forbidden(m) && m@ == ip_text@,
{
    if !is_ip_allowed(ip, level) {
        return Err(UrlGuardError::Forbidden(string_of(chars_of(ip_text).as_slice())));
    }
    Ok(())
}

/// Checks the addresses a host name resolved to, each with its text: the
/// first that is not allowed is refused, and no address at all is a
/// resolution error.
pub fn check_resolved(host: &str, addrs: &Vec<(IpAddr, String)>, level: GuardLevel) -> (r: Result<(), UrlGuardError>)
    ensures
        r is Ok <==> (addrs@.len() > 0 && forall|i: int| 0 <= i < addrs@.len() ==> ip_allowed(#[trigger] addrs@[i].0, level)),
        match r {
            Ok(_) => true,
            Err(UrlGuardError::DnsError(m)) => addrs@.len() == 0 && m@ == "no addresses resolved"@,
            Err(UrlGuardError::Forbidden(m)) => exists|i: int|
                0 <= i < addrs@.len() && !ip_allowed(#[trigger] addrs@[i].0, level) && (forall|j: int|
                    0 <= j < i ==> ip_allowed(#[trigger] addrs@[j].0, level)) && m@ == host@ + " resolves to "@
                    + addrs@[i].1@,
            Err(_) => false,
        },
{
    let mut i: usize = 0;
    while i < addrs.len()
        invariant
            i <= addrs@.len(),
            forall|j: int| 0 <= j < i ==> ip_allowed(#[trigger] addrs@[j].0, level),
        decreases addrs@.len() - i,
    {
        if !is_ip_allowed(&addrs[i].0, level) {
            let head = chars_of(host);
            let mid = concat(head.as_slice(), chars_of(" resolves to ").as_slice());
            let all = concat(mid.as_slice(), chars_of(addrs[i].1.as_str()).as_slice());
            return Err(UrlGuardError::Forbidden(string_of(all.as_slice())));
        }
        i = i + 1;
    }
    if addrs.len() == 0 {
        return Err(UrlGuardError::DnsError(string_of(chars_of("no addresses resolved").as_slice())));
    }
    Ok(())
}

impl UrlGuardError {
    /// The error's message.
    pub fn message(&self) -> (m: String)
        ensures
            m@ == match self {
                UrlGuardError::Invalid(s) => "invalid URL: "@ + s@,
                UrlGuardError::BadScheme(s) => "scheme not allowed: "@ + s@ + " (use http or https)"@,
                UrlGuardError::MissingHost => "missing host"@,
                UrlGuardError::DnsError(s) => "DNS resolution failed: "@ + s@,
                UrlGuardError::Forbidden(s) => "destination address is forbidden (private/loopback/metadata): "@ + s@,
            },
    {
        match self {
            UrlGuardError::Invalid(s) => prefixed("invalid URL: ", s.as_str()),
            UrlGuardError::BadScheme(s) => {
                let a = prefixed("scheme not allowed: ", s.as_str());
                let all = concat(chars_of(a.as_str()).as_slice(), chars_of(" (use http or https)").as_slice());
                string_of(all.as_slice())
            },
            UrlGuardError::MissingHost => string_of(chars_of("missing host").as_slice()),
            UrlGuardError::DnsError(s) => prefixed("DNS resolution failed: ", s.as_str()),
            UrlGuardError::Forbidden(s) => prefixed(
                "destination address is forbidden (private/loopback/metadata): ",
                s.as_str(),
            ),
        }
    }
}

} // verus!
