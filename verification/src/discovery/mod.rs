//! Service discovery: where services are found (Consul, DNS SRV or nowhere)
//! and what a poll registers. The lookups themselves are made by the caller;
//! this module builds their URLs and decides, from the answers, which
//! service to register under which prefix with which upstreams.
pub mod mesh;

use vstd::prelude::*;
use crate::text::{chars_of, string_of, concat, eq_str, split_seq};
use crate::fmt::{decimal, decimal_text};

verus! {

/// Where services are discovered.
pub enum DiscoveryBackend {
    /// Polling Consul's HTTP catalog, optionally in one datacenter.
    Consul { url: String, datacenter: Option<String> },
    /// Resolving DNS SRV records of a domain.
    Dns { domain: String },
    /// Services come from the configuration only.
    Static,
}

/// A service to register: its name, its path prefix, the upstream it is
/// registered with, and further upstreams for the same service.
pub struct DiscoveryPlan {
    pub name: String,
    pub prefix: String,
    pub primary: String,
    pub extra: Vec<String>,
}

/// `http://host:port`.
pub open spec fn upstream_text(host: Seq<char>, port: u16) -> Seq<char> {
    "http://"@ + host + ":"@ + decimal(port as nat)
}

/// The upstream URL of an address and port.
pub fn upstream_url(host: &str, port: u16) -> (u: String)
    ensures
        u@ == upstream_text(host@, port),
{
    let a = concat(chars_of("http://").as_slice(), chars_of(host).as_slice());
    let b = concat(a.as_slice(), chars_of(":").as_slice());
    let c = concat(b.as_slice(), decimal_text(port as u64).as_slice());
    string_of(c.as_slice())
}

/// The catalog URL of a Consul agent, for one datacenter when given.
pub fn consul_services_url(consul_url: &str, datacenter: Option<&str>) -> (u: String)
    ensures
        u@ == match datacenter {
            Some(dc) => consul_url@ + "/v1/catalog/services?dc="@ + dc@,
            None => consul_url@ + "/v1/catalog/services"@,
        },
{
    match datacenter {
        Some(dc) => {
            let a = concat(chars_of(consul_url).as_slice(), chars_of("/v1/catalog/services?dc=").as_slice());
            let b = concat(a.as_slice(), chars_of(dc).as_slice());
            string_of(b.as_slice())
        },
        None => {
            let a = concat(chars_of(consul_url).as_slice(), chars_of("/v1/catalog/services").as_slice());
            string_of(a.as_slice())
        },
    }
}

/// The URL of one service's instances in a Consul catalog.
pub fn consul_service_url(consul_url: &str, service: &str) -> (u: String)
    ensures
        u@ == consul_url@ + "/v1/catalog/service/"@ + service@,
{
    let a = concat(chars_of(consul_url).as_slice(), chars_of("/v1/catalog/service/").as_slice());
    let b = concat(a.as_slice(), chars_of(service).as_slice());
    string_of(b.as_slice())
}

/// The texts of a list of strings.
pub open spec fn texts(v: Seq<String>) -> Seq<Seq<char>> {
    v.map_values(|s: String| s@)
}

/// The upstreams of a list of `(address, port)` instances, in order.
pub open spec fn upstreams_of(instances: Seq<(String, u16)>) -> Seq<Seq<char>> {
    instances.map_values(|i: (String, u16)| upstream_text(i.0@, i.1))
}

fn upstream_list(instances: &[(String, u16)], from: usize) -> (r: Vec<String>)
    requires
        from <= instances@.len(),
    ensures
        texts(r@) == upstreams_of(instances@).subrange(from as int, instances@.len() as int),
{
    let mut r: Vec<String> = Vec::new();
    let mut i: usize = from;
    while i < instances.len()
        invariant
            from <= i <= instances@.len(),
            texts(r@) == upstreams_of(instances@).subrange(from as int, i as int),
        decreases instances@.len() - i,
    {
        let u = upstream_url(instances[i].0.as_str(), instances[i].1);
        assert(upstreams_of(instances@)[i as int] == upstream_text(instances@[i as int].0@, instances@[i as int].1));
        assert(u@ == upstreams_of(instances@)[i as int]);
        let ghost before = r@;
        r.push(u);
        assert(r@ == before.push(u));
        assert(texts(before).len() == before.len());
        assert(before.len() == i - from);
        assert forall|j: int| 0 <= j < r@.len() implies #[trigger] texts(r@)[j]
            == upstreams_of(instances@).subrange(from as int, i + 1)[j] by {
            assert(texts(r@)[j] == r@[j]@);
            if j < before.len() {
                assert(r@[j] == before[j]);
                assert(texts(before)[j] == before[j]@);
                assert(texts(before)[j] == upstreams_of(instances@).subrange(from as int, i as int)[j]);
            } else {
                assert(r@[j] == u);
            }
        }
        assert(texts(r@) =~= upstreams_of(instances@).subrange(from as int, i + 1));
        i = i + 1;
    }
    r
}

/// Whether a plan registers `name` under `/name` with the instances'
/// upstreams: the first as the primary, the rest as extras.
pub open spec fn plans(p: DiscoveryPlan, name: Seq<char>, ups: Seq<Seq<char>>) -> bool {
    &&& p.name@ == name
    &&& p.prefix@ == "/"@ + name
    &&& p.primary@ == ups[0]
    &&& texts(p.extra@) == ups.subrange(1, ups.len() as int)
}

/// What a Consul poll registers for one catalog service: nothing for Consul
/// itself, for a service without instances, or when its prefix is already
/// taken; otherwise the service with its instances' upstreams.
pub fn consul_plan(service: &str, instances: &[(String, u16)], prefix_taken: bool) -> (r: Option<DiscoveryPlan>)
    ensures
        service@ == "consul"@ || instances@.len() == 0 || prefix_taken ==> r is None,
        !(service@ == "consul"@ || instances@.len() == 0 || prefix_taken) ==> (r matches Some(p) && plans(
            p,
            service@,
            upstreams_of(instances@),
        )),
{
    if eq_str(chars_of(service).as_slice(), "consul") || instances.len() == 0 || prefix_taken {
        return None;
    }
    let all = upstream_list(instances, 0);
    let extra = upstream_list(instances, 1);
    let prefix = string_of(concat(chars_of("/").as_slice(), chars_of(service).as_slice()).as_slice());
    proof {
        assert(upstreams_of(instances@).subrange(0, instances@.len() as int) =~= upstreams_of(instances@));
        assert(texts(all@)[0] == all@[0]@);
    }
    let primary = crate::config::text(all[0].as_str());
    Some(DiscoveryPlan { name: crate::config::text(service), prefix, primary, extra })
}

/// `s` without leading underscores.
pub open spec fn drop_underscores(s: Seq<char>) -> Seq<char>
    decreases s.len(),
{
    if s.len() > 0 && s[0] == '_' {
        drop_underscores(s.drop_first())
    } else {
        s
    }
}

/// `s` without trailing dots.
pub open spec fn drop_trailing_dots(s: Seq<char>) -> Seq<char>
    decreases s.len(),
{
    if s.len() > 0 && s.last() == '.' {
        drop_trailing_dots(s.drop_last())
    } else {
        s
    }
}

/// The service name a DNS SRV domain stands for: its first label once the
/// leading underscores are gone (`_api._tcp.example.com` gives `api`).
pub open spec fn dns_service_name(domain: Seq<char>) -> Seq<char> {
    split_seq(drop_underscores(domain), '.')[0]
}

fn trim_leading_underscores(s: &[char]) -> (r: Vec<char>)
    ensures
        r@ == drop_underscores(s@),
{
    let mut i: usize = 0;
    assert(s@.subrange(0, s@.len() as int) =~= s@);
    while i < s.len() && s[i] == '_'
        invariant
            i <= s@.len(),
            drop_underscores(s@) == drop_underscores(s@.subrange(i as int, s@.len() as int)),
        decreases s@.len() - i,
    {
        proof {
            let t = s@.subrange(i as int, s@.len() as int);
            assert(t.drop_first() =~= s@.subrange(i + 1, s@.len() as int));
        }
        i = i + 1;
    }
    proof {
        assert(s@.subrange(0, s@.len() as int) =~= s@);
    }
    crate::text::slice(s, i, s.len())
}

/// The host name of an SRV target, without the trailing dots.
pub fn srv_target_host(target: &str) -> (h: String)
    ensures
        h@ == drop_trailing_dots(target@),
{
    let s = chars_of(target);
    let mut n: usize = s.len();
    assert(s@.subrange(0, s@.len() as int) =~= s@);
    while n > 0 && s[n - 1] == '.'
        invariant
            n <= s@.len(),
            drop_trailing_dots(s@) == drop_trailing_dots(s@.subrange(0, n as int)),
        decreases n,
    {
        proof {
            assert(s@.subrange(0, n as int).drop_last() =~= s@.subrange(0, n - 1));
        }
        n = n - 1;
    }
    proof {
        assert(s@.subrange(0, s@.len() as int) =~= s@);
    }
    string_of(crate::text::slice(s.as_slice(), 0, n).as_slice())
}

/// The service name of a DNS SRV domain.
pub fn dns_service(domain: &str) -> (n: String)
    ensures
        n@ == dns_service_name(domain@),
{
    let d = trim_leading_underscores(chars_of(domain).as_slice());
    let parts = crate::text::split_on(d.as_slice(), '.');
    proof {
        crate::text::lemma_split_nonempty(d@, '.');
        assert(parts@.map_values(|v: Vec<char>| v@)[0] == parts@[0]@);
    }
    string_of(parts[0].as_slice())
}

/// What a DNS poll registers: nothing without targets or when the prefix
/// is taken; otherwise the domain's service with the targets' upstreams.
pub fn dns_plan(domain: &str, targets: &[(String, u16)], prefix_taken: bool) -> (r: Option<DiscoveryPlan>)
    ensures
        targets@.len() == 0 || prefix_taken ==> r is None,
        !(targets@.len() == 0 || prefix_taken) ==> (r matches Some(p) && plans(
            p,
            dns_service_name(domain@),
            upstreams_of(targets@),
        )),
{
    if targets.len() == 0 || prefix_taken {
        return None;
    }
    let name = dns_service(domain);
    let all = upstream_list(targets, 0);
    let extra = upstream_list(targets, 1);
    let prefix = string_of(concat(chars_of("/").as_slice(), chars_of(name.as_str()).as_slice()).as_slice());
    proof {
        assert(upstreams_of(targets@).subrange(0, targets@.len() as int) =~= upstreams_of(targets@));
        assert(texts(all@)[0] == all@[0]@);
    }
    let primary = crate::config::text(all[0].as_str());
    Some(DiscoveryPlan { name, prefix, primary, extra })
}

} // verus!
