//! Canary routing: a request that carries the canary header value goes to
//! the canary upstream; otherwise traffic is split among upstreams by
//! weight, with a random roll.
use vstd::prelude::*;
use crate::text::{chars_of, string_of, to_lower, lower_seq, eq};
use crate::gateway::proxy::{first_text, find_first_text};

verus! {

/// Canary and traffic-split settings.
pub struct CanaryConfig {
    pub enabled: bool,
    /// Upstreams with their weights, in the order they are walked.
    pub weights: Vec<(String, u32)>,
    /// The header that sends a request to the canary.
    pub header_name: Option<String>,
    /// The header value that does so.
    pub header_value: Option<String>,
    /// Where such requests go.
    pub canary_upstream: Option<String>,
}

impl Default for CanaryConfig {
    fn default() -> (c: Self)
        ensures
            !c.enabled,
            c.weights@.len() == 0,
            c.header_name is None,
            c.header_value is None,
            c.canary_upstream is None,
    {
        CanaryConfig { enabled: false, weights: Vec::new(), header_name: None, header_value: None, canary_upstream: None }
    }
}

/// The sum of the weights.
pub open spec fn weight_sum(w: Seq<(String, u32)>) -> nat
    decreases w.len(),
{
    if w.len() == 0 {
        0
    } else {
        w[0].1 as nat + weight_sum(w.drop_first())
    }
}

/// The upstream whose cumulative weight first passes `roll`, walking the
/// weights in order.
pub open spec fn pick_weighted(w: Seq<(String, u32)>, roll: int) -> Option<String>
    decreases w.len(),
{
    if w.len() == 0 {
        None
    } else if roll < w[0].1 {
        Some(w[0].0)
    } else {
        pick_weighted(w.drop_first(), roll - w[0].1)
    }
}

/// The upstream a weighted split picks for a roll already reduced below the
/// total weight; the first listed upstream if the walk finds none.
pub open spec fn split_choice(c: CanaryConfig, upstreams: Seq<String>, roll: int) -> Option<String> {
    match pick_weighted(c.weights@, roll) {
        Some(u) => Some(u),
        None => if upstreams.len() > 0 { Some(upstreams[0]) } else { None },
    }
}

/// The canary upstream when the request carries the configured header with
/// the configured value (names compared without regard to ASCII case).
pub open spec fn header_route(c: CanaryConfig, headers: Seq<(String, Option<String>)>) -> Option<String> {
    if !c.enabled {
        None
    } else {
        match (c.header_name, c.header_value, c.canary_upstream) {
            (Some(n), Some(v), Some(u)) => if first_text(headers, lower_seq(n@)) == Some(v@) {
                Some(u)
            } else {
                None
            },
            _ => None,
        }
    }
}

/// A random 32-bit number (`rand::random::<u32>()`); nothing is promised of
/// its value.
#[verifier::external_body]
fn random_u32() -> u32 {
    rand::random::<u32>()
}

impl CanaryConfig {
    /// The weighted choice for a given random roll: `None` when the split
    /// is off, has no weights or weighs nothing.
    pub fn select_upstream_with(&self, upstreams: &[String], roll: u32) -> (r: Option<String>)
        requires
            weight_sum(self.weights@) <= u32::MAX,
        ensures
            !self.enabled || self.weights@.len() == 0 || weight_sum(self.weights@) == 0 ==> r is None,
            self.enabled && self.weights@.len() > 0 && weight_sum(self.weights@) > 0 ==> r == split_choice(
                *self,
                upstreams@,
                roll as int % weight_sum(self.weights@) as int,
            ),
    {
        if !self.enabled || self.weights.len() == 0 {
            return None;
        }
        let ghost w = self.weights@;
        assert(w.subrange(0, w.len() as int) =~= w);
        let mut total: u64 = 0;
        let mut i: usize = 0;
        while i < self.weights.len()
            invariant
                w == self.weights@,
                i <= w.len(),
                total + weight_sum(w.subrange(i as int, w.len() as int)) == weight_sum(w),
                weight_sum(w) <= u32::MAX,
            decreases w.len() - i,
        {
            proof {
                let s = w.subrange(i as int, w.len() as int);
                assert(s.drop_first() =~= w.subrange(i + 1, w.len() as int));
                assert(s[0] == w[i as int]);
            }
            total = total + self.weights[i].1 as u64;
            i = i + 1;
        }
        proof {
            assert(w.subrange(w.len() as int, w.len() as int) =~= Seq::<(String, u32)>::empty());
        }
        if total == 0 {
            return None;
        }
        let rr: u64 = (roll as u64) % total;
        assert(w.subrange(0, w.len() as int) =~= w);
        let mut cumulative: u64 = 0;
        let mut j: usize = 0;
        while j < self.weights.len()
            invariant
                w == self.weights@,
                j <= w.len(),
                total == weight_sum(w),
                total <= u32::MAX,
                self.enabled,
                w.len() > 0,
                rr == roll as int % weight_sum(w) as int,
                cumulative <= rr,
                rr < total,
                pick_weighted(w, rr as int) == pick_weighted(w.subrange(j as int, w.len() as int), rr - cumulative),
            decreases w.len() - j,
        {
            proof {
                let s = w.subrange(j as int, w.len() as int);
                assert(s.drop_first() =~= w.subrange(j + 1, w.len() as int));
                assert(s[0] == w[j as int]);
            }
            let wt = self.weights[j].1 as u64;
            if rr < cumulative + wt {
                return Some(self.weights[j].0.clone());
            }
            cumulative = cumulative + wt;
            j = j + 1;
        }
        proof {
            assert(w.subrange(w.len() as int, w.len() as int) =~= Seq::<(String, u32)>::empty());
        }
        if upstreams.len() > 0 {
            Some(upstreams[0].clone())
        } else {
            None
        }
    }

    /// The weighted choice with a fresh random roll.
    pub fn select_upstream(&self, upstreams: &[String]) -> (r: Option<String>)
        requires
            weight_sum(self.weights@) <= u32::MAX,
        ensures
            !self.enabled || self.weights@.len() == 0 || weight_sum(self.weights@) == 0 ==> r is None,
            self.enabled && self.weights@.len() > 0 && weight_sum(self.weights@) > 0 ==> exists|roll: int|
                0 <= roll < weight_sum(self.weights@) && r == #[trigger] split_choice(*self, upstreams@, roll),
    {
        let roll = random_u32();
        let r = self.select_upstream_with(upstreams, roll);
        proof {
            if self.enabled && self.weights@.len() > 0 && weight_sum(self.weights@) > 0 {
                let x = roll as int % weight_sum(self.weights@) as int;
                assert(r == split_choice(*self, upstreams@, x));
            }
        }
        r
    }

    /// The canary upstream for a request with these headers, when the
    /// canary header carries the canary value.
    pub fn check_header_routing(&self, headers: &[(String, Option<String>)]) -> (r: Option<String>)
        ensures
            r == header_route(*self, headers@),
    {
        if !self.enabled {
            return None;
        }
        match (&self.header_name, &self.header_value, &self.canary_upstream) {
            (Some(n), Some(v), Some(u)) => {
                let ln = string_of(to_lower(chars_of(n.as_str()).as_slice()).as_slice());
                match find_first_text(headers, ln.as_str()) {
                    Some(found) => {
                        if eq(found.as_slice(), chars_of(v.as_str()).as_slice()) {
                            Some(u.clone())
                        } else {
                            None
                        }
                    },
                    None => None,
                }
            },
            _ => None,
        }
    }
}

/// Header routing first, then the weighted split; `None` leaves the choice
/// to the load balancer. The split uses the given roll.
pub fn select_canary_or_lb_with(
    canary: &Option<CanaryConfig>,
    headers: &[(String, Option<String>)],
    upstreams: &[String],
    roll: u32,
) -> (r: Option<String>)
    requires
        canary matches Some(c) ==> weight_sum(c.weights@) <= u32::MAX,
    ensures
        match canary {
            Some(c) => match header_route(*c, headers@) {
                Some(u) => r == Some(u),
                None => if c.enabled && c.weights@.len() > 0 && weight_sum(c.weights@) > 0 {
                    r == split_choice(*c, upstreams@, roll as int % weight_sum(c.weights@) as int)
                } else {
                    r is None
                },
            },
            None => r is None,
        },
{
    match canary {
        Some(c) => match c.check_header_routing(headers) {
            Some(u) => Some(u),
            None => c.select_upstream_with(upstreams, roll),
        },
        None => None,
    }
}

/// Header routing first, then the weighted split with a fresh random roll.
pub fn select_canary_or_lb(
    canary: &Option<CanaryConfig>,
    headers: &[(String, Option<String>)],
    upstreams: &[String],
) -> (r: Option<String>)
    requires
        canary matches Some(c) ==> weight_sum(c.weights@) <= u32::MAX,
    ensures
        match canary {
            Some(c) => match header_route(*c, headers@) {
                Some(u) => r == Some(u),
                None => if c.enabled && c.weights@.len() > 0 && weight_sum(c.weights@) > 0 {
                    exists|roll: int|
                        0 <= roll < weight_sum(c.weights@) && r == #[trigger] split_choice(*c, upstreams@, roll)
                } else {
                    r is None
                },
            },
            None => r is None,
        },
{
    let roll = random_u32();
    let r = select_canary_or_lb_with(canary, headers, upstreams, roll);
    proof {
        if let Some(c) = canary {
            if header_route(*c, headers@) is None && c.enabled && c.weights@.len() > 0 && weight_sum(c.weights@) > 0 {
                let x = roll as int % weight_sum(c.weights@) as int;
                assert(r == split_choice(*c, upstreams@, x));
            }
        }
    }
    r
}

/// A weighted split with any roll below the total weight picks one of the
/// weighted upstreams, never the fallback.
pub proof fn law_split_picks_weighted(w: Seq<(String, u32)>, roll: int)
    requires
        0 <= roll < weight_sum(w),
    ensures
        pick_weighted(w, roll) is Some,
        exists|i: int| 0 <= i < w.len() && pick_weighted(w, roll) == Some(#[trigger] w[i].0),
    decreases w.len(),
{
    if w.len() > 0 && roll >= w[0].1 {
        law_split_picks_weighted(w.drop_first(), roll - w[0].1);
        let i = choose|i: int| 0 <= i < w.drop_first().len() && pick_weighted(w.drop_first(), roll - w[0].1) == Some(
            #[trigger] w.drop_first()[i].0,
        );
        assert(w[i + 1] == w.drop_first()[i]);
    } else if w.len() > 0 {
        assert(pick_weighted(w, roll) == Some(w[0].0));
    }
}

} // verus!
