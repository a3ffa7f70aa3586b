//! Service mesh registry and container discovery: services registered with
//! their sidecar settings, looked up and removed by name; and the services
//! that running containers announce through their labels.
use vstd::prelude::*;
use crate::store::VecMap;
use crate::text::{chars_of, string_of, concat};
use crate::config::text;
use crate::gateway::transform::copy_strings;
use crate::discovery::{upstream_text, upstream_url};

verus! {

/// Retry settings of a mesh service.
pub struct RetryPolicy {
    pub max_retries: u32,
    pub per_try_timeout_ms: u64,
    /// Failure classes that are retried ("5xx", "reset", "connect-failure").
    pub retry_on: Vec<String>,
}

impl Default for RetryPolicy {
    fn default() -> (p: Self)
        ensures
            p.max_retries == 3,
            p.per_try_timeout_ms == 5000,
            p.retry_on@.len() == 2,
            p.retry_on@[0]@ == "5xx"@,
            p.retry_on@[1]@ == "connect-failure"@,
    {
        let mut retry_on: Vec<String> = Vec::new();
        retry_on.push(text("5xx"));
        retry_on.push(text("connect-failure"));
        RetryPolicy { max_retries: 3, per_try_timeout_ms: 5000, retry_on }
    }
}

/// A service in the mesh.
pub struct MeshService {
    pub name: String,
    pub sidecar_port: u16,
    pub mtls_enabled: bool,
    pub retry_policy: RetryPolicy,
    pub circuit_breaker: bool,
    pub load_balance: String,
    pub tags: Vec<String>,
}

/// The services of the mesh, by name.
pub struct ServiceMesh {
    enabled: bool,
    services: VecMap<Vec<char>, MeshService>,
}

/// What registering a service stores: the given name, port, mTLS switch
/// and tags, the default retry policy, a circuit breaker, round-robin
/// balancing.
pub open spec fn registered(s: MeshService, name: Seq<char>, port: u16, mtls: bool, tags: Seq<String>) -> bool {
    &&& s.name@ == name
    &&& s.sidecar_port == port
    &&& s.mtls_enabled == mtls
    &&& s.retry_policy.max_retries == 3
    &&& s.retry_policy.per_try_timeout_ms == 5000
    &&& s.retry_policy.retry_on@.map_values(|x: String| x@) == seq!["5xx"@, "connect-failure"@]
    &&& s.circuit_breaker
    &&& s.load_balance@ == "round-robin"@
    &&& s.tags@ == tags
}

/// Two services hold the same values.
pub open spec fn same_service(a: MeshService, b: MeshService) -> bool {
    &&& a.name@ == b.name@
    &&& a.sidecar_port == b.sidecar_port
    &&& a.mtls_enabled == b.mtls_enabled
    &&& a.retry_policy.max_retries == b.retry_policy.max_retries
    &&& a.retry_policy.per_try_timeout_ms == b.retry_policy.per_try_timeout_ms
    &&& a.retry_policy.retry_on@ == b.retry_policy.retry_on@
    &&& a.circuit_breaker == b.circuit_breaker
    &&& a.load_balance@ == b.load_balance@
    &&& a.tags@ == b.tags@
}

fn copy_service(s: &MeshService) -> (r: MeshService)
    ensures
        same_service(r, *s),
{
    MeshService {
        name: s.name.clone(),
        sidecar_port: s.sidecar_port,
        mtls_enabled: s.mtls_enabled,
        retry_policy: RetryPolicy {
            max_retries: s.retry_policy.max_retries,
            per_try_timeout_ms: s.retry_policy.per_try_timeout_ms,
            retry_on: copy_strings(&s.retry_policy.retry_on),
        },
        circuit_breaker: s.circuit_breaker,
        load_balance: s.load_balance.clone(),
        tags: copy_strings(&s.tags),
    }
}

impl ServiceMesh {
    /// The registered services, by name.
    pub closed spec fn services(&self) -> Map<Seq<char>, MeshService> {
        self.services.map()
    }

    /// Whether the mesh mode is on.
    pub closed spec fn on(&self) -> bool {
        self.enabled
    }

    /// An empty mesh.
    pub fn new(enabled: bool) -> (m: Self)
        ensures
            m.wf_names(),
            m.services() == Map::<Seq<char>, MeshService>::empty(),
            m.on() == enabled,
    {
        ServiceMesh { enabled, services: VecMap::new() }
    }

    /// Registers (or replaces) a service under its name.
    pub fn register_service(&mut self, name: String, sidecar_port: u16, mtls: bool, tags: Vec<String>)
        requires
            old(self).wf_names(),
        ensures
            final(self).wf_names(),
            final(self).on() == old(self).on(),
            final(self).services().contains_key(name@),
            registered(final(self).services()[name@], name@, sidecar_port, mtls, tags@),
            final(self).services().remove(name@) == old(self).services().remove(name@),
    {
        let policy = RetryPolicy::default();
        proof {
            assert(policy.retry_on@.map_values(|x: String| x@) =~= seq!["5xx"@, "connect-failure"@]);
        }
        let key = chars_of(name.as_str());
        let service = MeshService {
            name,
            sidecar_port,
            mtls_enabled: mtls,
            retry_policy: policy,
            circuit_breaker: true,
            load_balance: text("round-robin"),
            tags,
        };
        self.services.insert(key, service);
        proof {
            assert(self.services().remove(name@) =~= old(self).services().remove(name@));
        }
    }

    /// The service registered under a name.
    pub fn resolve(&self, name: &str) -> (r: Option<MeshService>)
        ensures
            match r {
                Some(s) => self.services().contains_key(name@) && same_service(s, self.services()[name@]),
                None => !self.services().contains_key(name@),
            },
    {
        match self.services.get(&chars_of(name)) {
            Some(s) => Some(copy_service(s)),
            None => None,
        }
    }

    /// Every registered service, one per name.
    pub fn list_services(&self) -> (r: Vec<MeshService>)
        requires
            self.wf_names(),
        ensures
            r@.len() == self.services().len(),
            forall|i: int| 0 <= i < r@.len() ==> self.services().contains_key(#[trigger] r@[i].name@) && same_service(
                r@[i],
                self.services()[r@[i].name@],
            ),
    {
        let n = self.services.len();
        proof {
            crate::store::lemma_dom_len(self.services.keys(), self.services.map());
        }
        let mut out: Vec<MeshService> = Vec::new();
        let mut i: usize = 0;
        while i < n
            invariant
                n == self.services.keys().len(),
                i <= n,
                out@.len() == i,
                self.wf_names(),
                forall|j: int| 0 <= j < i ==> self.services().contains_key(#[trigger] out@[j].name@) && same_service(
                    out@[j],
                    self.services()[out@[j].name@],
                ),
            decreases n - i,
        {
            let (_, s) = self.services.entry_at(i);
            out.push(copy_service(s));
            i = i + 1;
        }
        out
    }

    /// Every stored service is stored under its own name.
    pub closed spec fn wf_names(&self) -> bool {
        forall|k: Seq<char>| #[trigger] self.services().contains_key(k) ==> self.services()[k].name@ == k
    }

    /// Removes a service; tells whether it was there.
    pub fn deregister(&mut self, name: &str) -> (found: bool)
        requires
            old(self).wf_names(),
        ensures
            final(self).wf_names(),
            found == old(self).services().contains_key(name@),
            final(self).services() == old(self).services().remove(name@),
            final(self).on() == old(self).on(),
    {
        let found = self.services.remove(&chars_of(name)).is_some();
        proof {
            assert forall|k: Seq<char>| #[trigger] self.services().contains_key(k) implies self.services()[k].name@ == k by {
                assert(old(self).services().contains_key(k));
            }
        }
        found
    }

    /// Whether the mesh mode is on.
    pub fn is_enabled(&self) -> (r: bool)
        ensures
            r == self.on(),
    {
        self.enabled
    }

    /// How many services are registered.
    pub fn service_count(&self) -> (n: usize)
        ensures
            n == self.services().len(),
    {
        let n = self.services.len();
        proof {
            crate::store::lemma_dom_len(self.services.keys(), self.services.map());
        }
        n
    }
}

/// Finds services announced by container labels through a Docker API
/// endpoint.
pub struct DockerDiscovery {
    pub docker_socket: String,
    pub label_prefix: String,
}

/// A service found on a container.
pub struct DiscoveredService {
    pub name: String,
    pub prefix: String,
    pub upstream: String,
    pub health_endpoint: String,
}

/// The decimal value of a text of digits.
pub open spec fn digits_value(s: Seq<char>) -> int
    decreases s.len(),
{
    if s.len() == 0 {
        0
    } else {
        digits_value(s.drop_last()) * 10 + (s.last() as int - '0' as int)
    }
}

/// All characters are ASCII digits.
pub open spec fn all_digits(s: Seq<char>) -> bool {
    forall|i: int| 0 <= i < s.len() ==> '0' <= #[trigger] s[i] <= '9'
}

/// A port number in text as `str::parse::<u16>` reads it: an optional `+`,
/// then at least one digit and nothing else, at most 65535.
pub open spec fn port_value(s: Seq<char>) -> Option<u16> {
    let d = if s.len() > 0 && s[0] == '+' { s.drop_first() } else { s };
    if d.len() == 0 || !all_digits(d) || digits_value(d) > 65535 {
        None
    } else {
        Some(digits_value(d) as u16)
    }
}

/// Reads a port number.
pub fn parse_port(s: &str) -> (r: Option<u16>)
    ensures
        r == port_value(s@),
{
    let c = chars_of(s);
    let start: usize = if c.len() > 0 && c[0] == '+' { 1 } else { 0 };
    let ghost d = if c@.len() > 0 && c@[0] == '+' { c@.drop_first() } else { c@ };
    proof {
        assert(d =~= c@.subrange(start as int, c@.len() as int));
    }
    if start == c.len() {
        return None;
    }
    let mut v: u32 = 0;
    let mut i: usize = start;
    while i < c.len()
        invariant
            start <= i <= c@.len(),
            c@ == s@,
            d == (if c@.len() > 0 && c@[0] == '+' { c@.drop_first() } else { c@ }),
            d == c@.subrange(start as int, c@.len() as int),
            all_digits(c@.subrange(start as int, i as int)),
            v == digits_value(c@.subrange(start as int, i as int)),
            v <= 65535,
        decreases c@.len() - i,
    {
        let ch = c[i];
        proof {
            assert(c@.subrange(start as int, i + 1).drop_last() =~= c@.subrange(start as int, i as int));
        }
        if ch < '0' || ch > '9' {
            proof {
                assert(d[i - start] == ch);
            }
            return None;
        }
        let dv = (ch as u32) - ('0' as u32);
        let next = v * 10 + dv;
        if next > 65535 {
            proof {
                assert(d.subrange(0, i - start + 1) =~= c@.subrange(start as int, i + 1));
                if all_digits(d) {
                    lemma_digits_grow(d, (i - start + 1) as int);
                }
            }
            return None;
        }
        v = next;
        i = i + 1;
    }
    proof {
        assert(c@.subrange(start as int, c@.len() as int) == d);
    }
    Some(v as u16)
}

/// A longer run of digits is worth at least as much as its prefix.
proof fn lemma_digits_grow(d: Seq<char>, k: int)
    requires
        0 <= k <= d.len(),
        all_digits(d),
    ensures
        0 <= digits_value(d.subrange(0, k)) <= digits_value(d),
    decreases d.len() - k,
{
    let p = d.subrange(0, k);
    assert(all_digits(p)) by {
        assert forall|i: int| 0 <= i < p.len() implies '0' <= #[trigger] p[i] <= '9' by {
            assert(p[i] == d[i]);
        }
    }
    lemma_digits_nonneg(p);
    if k < d.len() {
        lemma_digits_grow(d, k + 1);
        assert(d.subrange(0, k + 1).drop_last() =~= p);
        assert('0' <= d[k] <= '9');
    } else {
        assert(d.subrange(0, k) =~= d);
        lemma_digits_nonneg(d);
    }
}

proof fn lemma_digits_nonneg(d: Seq<char>)
    requires
        all_digits(d),
    ensures
        digits_value(d) >= 0,
    decreases d.len(),
{
    if d.len() > 0 {
        assert(all_digits(d.drop_last())) by {
            assert forall|i: int| 0 <= i < d.drop_last().len() implies '0' <= #[trigger] d.drop_last()[i] <= '9' by {
                assert(d.drop_last()[i] == d[i]);
            }
        }
        lemma_digits_nonneg(d.drop_last());
        assert('0' <= d[d.len() - 1] <= '9');
    }
}

/// The service a container announces with its name, prefix and port
/// labels and its first network address; the health path defaults to
/// `/health`. A missing label or address, or a port that is not a number
/// below 65536, announces nothing.
pub open spec fn announced(
    name: Option<Seq<char>>,
    prefix: Option<Seq<char>>,
    port: Option<Seq<char>>,
    ip: Option<Seq<char>>,
    health: Option<Seq<char>>,
    s: Option<DiscoveredService>,
) -> bool {
    match (name, prefix, port, ip) {
        (Some(n), Some(p), Some(pt), Some(a)) => match port_value(pt) {
            Some(v) => s matches Some(d) && d.name@ == n && d.prefix@ == p && d.upstream@ == upstream_text(a, v)
                && d.health_endpoint@ == match health {
                Some(h) => h,
                None => "/health"@,
            },
            None => s is None,
        },
        _ => s is None,
    }
}

impl DockerDiscovery {
    /// Discovery through this Docker API endpoint, reading `xiranet.` labels.
    pub fn new(socket: String) -> (d: Self)
        ensures
            d.docker_socket == socket,
            d.label_prefix@ == "xiranet."@,
    {
        DockerDiscovery { docker_socket: socket, label_prefix: text("xiranet.") }
    }

    /// The URL that lists the running containers.
    pub fn containers_url(&self) -> (u: String)
        ensures
            u@ == self.docker_socket@ + "/containers/json?filters={\"status\":[\"running\"]}"@,
    {
        let a = concat(
            chars_of(self.docker_socket.as_str()).as_slice(),
            chars_of("/containers/json?filters={\"status\":[\"running\"]}").as_slice(),
        );
        string_of(a.as_slice())
    }

    /// The service one container announces, from the values of its
    /// `xiranet.service.name`, `.prefix`, `.port` and `.health` labels and
    /// its first network address.
    pub fn service_from_labels(
        name: Option<&str>,
        prefix: Option<&str>,
        port: Option<&str>,
        ip: Option<&str>,
        health: Option<&str>,
    ) -> (r: Option<DiscoveredService>)
        ensures
            announced(
                match name { Some(x) => Some(x@), None => None },
                match prefix { Some(x) => Some(x@), None => None },
                match port { Some(x) => Some(x@), None => None },
                match ip { Some(x) => Some(x@), None => None },
                match health { Some(x) => Some(x@), None => None },
                r,
            ),
    {
        match (name, prefix, port, ip) {
            (Some(n), Some(p), Some(pt), Some(a)) => match parse_port(pt) {
                Some(v) => Some(
                    DiscoveredService {
                        name: text(n),
                        prefix: text(p),
                        upstream: upstream_url(a, v),
                        health_endpoint: match health {
                            Some(h) => text(h),
                            None => text("/health"),
                        },
                    },
                ),
                None => None,
            },
            _ => None,
        }
    }
}

} // verus!
