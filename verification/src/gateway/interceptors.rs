//! Request and response interceptors, run in order of priority (lowest
//! first; equal priorities in the order they were added). The first
//! interceptor that answers a request stops the chain.
use vstd::prelude::*;
use crate::text::{chars_of, string_of, concat};
use crate::fmt::{decimal, decimal_text};
use crate::config::text;

verus! {

/// What an interceptor sees of a request.
pub struct InterceptorContext {
    pub method: String,
    pub path: String,
    pub ip: String,
    pub headers: Vec<(String, String)>,
    pub body_size: usize,
    pub service_name: Option<String>,
    pub metadata: Vec<(String, String)>,
}

/// How an interceptor answers a request.
pub enum InterceptorAction {
    Reject { status: u16, body: String },
    Redirect { url: String },
    ModifyHeaders { headers: Vec<(String, String)> },
}

/// A request/response interceptor.
pub trait Interceptor {
    /// The interceptor's priority, as a value.
    spec fn spec_priority(&self) -> i32;

    fn name(&self) -> &'static str;

    /// Lower runs first.
    fn priority(&self) -> (p: i32)
        ensures
            p == self.spec_priority(),
    ;

    /// What handling a request may do: the context before and after, and
    /// the answer given.
    spec fn request_step(&self, before: InterceptorContext, after: InterceptorContext, r: Option<InterceptorAction>) -> bool;

    /// What handling a response may do: the context before and after, the
    /// response seen, and the replacement body given.
    spec fn response_step(
        &self,
        before: InterceptorContext,
        after: InterceptorContext,
        status: u16,
        body: Seq<u8>,
        r: Option<Vec<u8>>,
    ) -> bool;

    /// `Some` stops the chain with that answer.
    fn on_request(&self, ctx: &mut InterceptorContext) -> (r: Option<InterceptorAction>)
        ensures
            self.request_step(*old(ctx), *final(ctx), r),
    ;

    /// `Some` replaces the response body.
    fn on_response(&self, ctx: &mut InterceptorContext, status: u16, body: &[u8]) -> (r: Option<Vec<u8>>)
        ensures
            self.response_step(*old(ctx), *final(ctx), status, body@, r),
    ;
}

/// A trace of contexts through the first stages, each of which answered a
/// request with `None`: stage `j` took `tr[j]` to `tr[j + 1]`.
pub open spec fn quiet_requests(st: Seq<(i32, Box<dyn Interceptor>)>, tr: Seq<InterceptorContext>) -> bool {
    &&& 1 <= tr.len() <= st.len() + 1
    &&& forall|j: int| 0 <= j < tr.len() - 1 ==> #[trigger] st[j].1.request_step(tr[j], tr[j + 1], None)
}

/// As `quiet_requests`, for responses.
pub open spec fn quiet_responses(
    st: Seq<(i32, Box<dyn Interceptor>)>,
    tr: Seq<InterceptorContext>,
    status: u16,
    body: Seq<u8>,
) -> bool {
    &&& 1 <= tr.len() <= st.len() + 1
    &&& forall|j: int| 0 <= j < tr.len() - 1 ==> #[trigger] st[j].1.response_step(tr[j], tr[j + 1], status, body, None)
}

/// What a chain of stages does to a request: every stage answers `None`
/// and the result is `None`, or the stages before some stage answer `None`
/// and that stage's answer is the result.
pub open spec fn chain_request(
    st: Seq<(i32, Box<dyn Interceptor>)>,
    before: InterceptorContext,
    after: InterceptorContext,
    r: Option<InterceptorAction>,
) -> bool {
    exists|tr: Seq<InterceptorContext>| #[trigger] quiet_requests(st, tr) && tr[0] == before && match r {
        None => tr.len() == st.len() + 1 && tr.last() == after,
        Some(_) => tr.len() <= st.len() && st[tr.len() - 1].1.request_step(tr.last(), after, r),
    }
}

/// As `chain_request`, for responses.
pub open spec fn chain_response(
    st: Seq<(i32, Box<dyn Interceptor>)>,
    before: InterceptorContext,
    after: InterceptorContext,
    status: u16,
    body: Seq<u8>,
    r: Option<Vec<u8>>,
) -> bool {
    exists|tr: Seq<InterceptorContext>| #[trigger] quiet_responses(st, tr, status, body) && tr[0] == before && match r {
        None => tr.len() == st.len() + 1 && tr.last() == after,
        Some(_) => tr.len() <= st.len() && st[tr.len() - 1].1.response_step(tr.last(), after, status, body, r),
    }
}

/// The interceptors, kept sorted by the priority each reported when added.
pub struct InterceptorChain {
    interceptors: Vec<(i32, Box<dyn Interceptor>)>,
}

/// Priorities in chain order.
pub open spec fn priorities(v: Seq<(i32, Box<dyn Interceptor>)>) -> Seq<i32> {
    v.map_values(|e: (i32, Box<dyn Interceptor>)| e.0)
}

/// Non-decreasing.
pub open spec fn sorted(p: Seq<i32>) -> bool {
    forall|a: int, b: int| 0 <= a <= b < p.len() ==> p[a] <= p[b]
}

impl InterceptorChain {
    /// The priorities of the interceptors, in running order.
    pub closed spec fn order(&self) -> Seq<i32> {
        priorities(self.interceptors@)
    }

    /// The stages, in running order, with the priority each reported.
    pub closed spec fn stages(&self) -> Seq<(i32, Box<dyn Interceptor>)> {
        self.interceptors@
    }

    pub fn new() -> (c: Self)
        ensures
            c.order().len() == 0,
    {
        InterceptorChain { interceptors: Vec::new() }
    }

    /// Adds an interceptor after every one of lower or equal priority.
    pub fn add(&mut self, interceptor: Box<dyn Interceptor>)
        requires
            sorted(old(self).order()),
        ensures
            sorted(final(self).order()),
            final(self).order().len() == old(self).order().len() + 1,
            exists|k: int|
                0 <= k <= old(self).order().len() && final(self).order() == old(self).order().insert(
                    k,
                    interceptor.spec_priority(),
                ) && (forall|j: int| 0 <= j < k ==> old(self).order()[j] <= interceptor.spec_priority()) && (forall|j: int|
                    k <= j < old(self).order().len() ==> old(self).order()[j] > interceptor.spec_priority())
                    && final(self).stages().len() == old(self).stages().len() + 1 && final(self).stages()[k].1 == interceptor
                    && final(self).stages()[k].0 == interceptor.spec_priority() && (forall|j: int|
                    0 <= j < k ==> #[trigger] final(self).stages()[j] == old(self).stages()[j]) && (forall|j: int|
                    k < j <= old(self).stages().len() ==> #[trigger] final(self).stages()[j] == old(self).stages()[j - 1]),
    {
        let p = interceptor.priority();
        let ghost ps = priorities(self.interceptors@);
        let mut k: usize = 0;
        while k < self.interceptors.len() && self.interceptors[k].0 <= p
            invariant
                k <= self.interceptors@.len(),
                ps == priorities(self.interceptors@),
                forall|j: int| 0 <= j < k ==> ps[j] <= p,
            decreases self.interceptors@.len() - k,
        {
            k = k + 1;
        }
        proof {
            if k < ps.len() {
                assert(ps[k as int] > p);
                assert forall|j: int| k <= j < ps.len() implies ps[j] > p by {
                    assert(ps[k as int] <= ps[j]);
                }
            }
        }
        let ghost old_v = self.interceptors@;
        let entry = (p, interceptor);
        let ghost e = entry;
        let mut v: Vec<(i32, Box<dyn Interceptor>)> = Vec::new();
        std::mem::swap(&mut v, &mut self.interceptors);
        v.insert(k, entry);
        self.interceptors = v;
        proof {
            let nv = self.interceptors@;
            old_v.insert_ensures(k as int, e);
            assert(nv == old_v.insert(k as int, e));
            assert(nv[k as int].0 == p);
            let np = priorities(nv);
            let want = ps.insert(k as int, p);
            ps.insert_ensures(k as int, p);
            assert(np.len() == want.len());
            assert forall|j: int| 0 <= j < np.len() implies np[j] == want[j] by {
                if j < k {
                    assert(nv[j] == old_v[j]);
                } else if j == k {
                    assert(ps.insert(k as int, p)[k as int] == p);
                } else {
                    assert(nv[(j - 1) + 1] == old_v[j - 1]);
                    assert(want[(j - 1) + 1] == ps[j - 1]);
                }
            }
            assert(np =~= want);
            assert(old_v == old(self).stages());
            assert(e.0 == interceptor.spec_priority());
            assert(e == (interceptor.spec_priority(), interceptor));
            assert(self.stages() == nv);
            assert(nv[k as int].1 == interceptor);
            assert forall|j: int| k < j <= old_v.len() implies #[trigger] nv[j] == old_v[j - 1] by {
                assert(nv[(j - 1) + 1] == old_v[j - 1]);
            }
        }
    }

    /// Runs the request through the chain until an interceptor answers.
    pub fn run_request(&self, ctx: &mut InterceptorContext) -> (r: Option<InterceptorAction>)
        ensures
            chain_request(self.stages(), *old(ctx), *final(ctx), r),
    {
        let ghost st = self.interceptors@;
        let ghost mut tr: Seq<InterceptorContext> = seq![*ctx];
        let mut i: usize = 0;
        while i < self.interceptors.len()
            invariant
                i <= st.len(),
                st == self.interceptors@,
                quiet_requests(st, tr),
                tr.len() == i + 1,
                tr[0] == *old(ctx),
                tr.last() == *ctx,
            decreases st.len() - i,
        {
            let ghost mid = *ctx;
            let a = self.interceptors[i].1.on_request(ctx);
            if a.is_some() {
                proof {
                    assert(st[tr.len() - 1].1.request_step(tr.last(), *ctx, a));
                    assert(quiet_requests(st, tr));
                }
                return a;
            }
            proof {
                let t2 = tr.push(*ctx);
                assert forall|j: int| 0 <= j < t2.len() - 1 implies #[trigger] st[j].1.request_step(t2[j], t2[j + 1], None) by {
                    if j < i {
                        assert(st[j].1.request_step(tr[j], tr[j + 1], None));
                    }
                }
                tr = t2;
            }
            i = i + 1;
        }
        proof {
            assert(quiet_requests(st, tr));
        }
        None
    }

    /// Runs the response through the chain until an interceptor replaces the body.
    pub fn run_response(&self, ctx: &mut InterceptorContext, status: u16, body: &[u8]) -> (r: Option<Vec<u8>>)
        ensures
            chain_response(self.stages(), *old(ctx), *final(ctx), status, body@, r),
    {
        let ghost st = self.interceptors@;
        let ghost mut tr: Seq<InterceptorContext> = seq![*ctx];
        let mut i: usize = 0;
        while i < self.interceptors.len()
            invariant
                i <= st.len(),
                st == self.interceptors@,
                quiet_responses(st, tr, status, body@),
                tr.len() == i + 1,
                tr[0] == *old(ctx),
                tr.last() == *ctx,
            decreases st.len() - i,
        {
            let a = self.interceptors[i].1.on_response(ctx, status, body);
            if a.is_some() {
                proof {
                    assert(st[tr.len() - 1].1.response_step(tr.last(), *ctx, status, body@, a));
                    assert(quiet_responses(st, tr, status, body@));
                }
                return a;
            }
            proof {
                let t2 = tr.push(*ctx);
                assert forall|j: int| 0 <= j < t2.len() - 1 implies #[trigger] st[j].1.response_step(t2[j], t2[j + 1], status, body@, None) by {
                    if j < i {
                        assert(st[j].1.response_step(tr[j], tr[j + 1], status, body@, None));
                    }
                }
                tr = t2;
            }
            i = i + 1;
        }
        proof {
            assert(quiet_responses(st, tr, status, body@));
        }
        None
    }

    /// Number of interceptors.
    pub fn count(&self) -> (n: usize)
        ensures
            n == self.order().len(),
    {
        self.interceptors.len()
    }
}

/// Rejects requests whose body is larger than a limit.
pub struct SizeLimiter {
    max_body_bytes: usize,
}

impl SizeLimiter {
    pub fn new(max_body_bytes: usize) -> (s: Self)
        ensures
            s.limit() == max_body_bytes,
    {
        SizeLimiter { max_body_bytes }
    }

    /// The largest body let through, in bytes.
    pub closed spec fn limit(&self) -> usize {
        self.max_body_bytes
    }
}

/// The rejection body for a size limit.
pub open spec fn too_large_body(max: usize) -> Seq<char> {
    "{\"error\":\"Request body too large\",\"max_bytes\":"@ + decimal(max as nat) + "}"@
}

impl Interceptor for SizeLimiter {
    open spec fn spec_priority(&self) -> i32 {
        -100i32
    }

    /// A body over the limit is rejected with 413; the context is kept.
    open spec fn request_step(&self, before: InterceptorContext, after: InterceptorContext, r: Option<InterceptorAction>) -> bool {
        &&& after == before
        &&& (before.body_size > self.limit() <==> r is Some)
        &&& (r matches Some(a) ==> (a matches InterceptorAction::Reject { status, body } && status == 413 && body@
            == too_large_body(self.limit())))
    }

    /// Responses pass unchanged.
    open spec fn response_step(
        &self,
        before: InterceptorContext,
        after: InterceptorContext,
        status: u16,
        body: Seq<u8>,
        r: Option<Vec<u8>>,
    ) -> bool {
        after == before && r is None
    }

    fn name(&self) -> &'static str {
        "size_limiter"
    }

    fn priority(&self) -> (p: i32) {
        -100
    }

    /// A body over the limit is rejected with 413.
    fn on_request(&self, ctx: &mut InterceptorContext) -> (r: Option<InterceptorAction>)
        ensures
            old(ctx).body_size > self.limit() <==> r is Some,
            *final(ctx) == *old(ctx),
            r matches Some(a) ==> (a matches InterceptorAction::Reject { status, body } && status == 413 && body@
                == too_large_body(self.limit())),
    {
        if ctx.body_size > self.max_body_bytes {
            let d = decimal_text(self.max_body_bytes as u64);
            let a = concat(chars_of("{\"error\":\"Request body too large\",\"max_bytes\":").as_slice(), d.as_slice());
            let b = concat(a.as_slice(), chars_of("}").as_slice());
            return Some(InterceptorAction::Reject { status: 413, body: string_of(b.as_slice()) });
        }
        None
    }

    fn on_response(&self, ctx: &mut InterceptorContext, status: u16, body: &[u8]) -> (r: Option<Vec<u8>>)
        ensures
            r is None,
    {
        None
    }
}

/// Adds HSTS, content-type, framing and referrer headers, and a content
/// security policy when one is set.
pub struct SecurityHeaders {
    pub hsts_max_age: u64,
    pub hsts_preload: bool,
    pub csp: Option<String>,
}

impl SecurityHeaders {
    pub fn new(hsts_max_age: u64, hsts_preload: bool, csp: Option<String>) -> (s: Self)
        ensures
            s.hsts_max_age == hsts_max_age,
            s.hsts_preload == hsts_preload,
            s.csp == csp,
    {
        SecurityHeaders { hsts_max_age, hsts_preload, csp }
    }
}

/// The security headers, in order.
pub open spec fn security_headers(max_age: u64, preload: bool, csp: Option<Seq<char>>) -> Seq<(Seq<char>, Seq<char>)> {
    let base = seq![
        ("Strict-Transport-Security"@, "max-age="@ + decimal(max_age as nat) + "; includeSubDomains"@ + (if preload { "; preload"@ } else { Seq::<char>::empty() })),
        ("X-Content-Type-Options"@, "nosniff"@),
        ("X-Frame-Options"@, "DENY"@),
        ("Referrer-Policy"@, "strict-origin-when-cross-origin"@)
    ];
    match csp {
        Some(c) => base.push(("Content-Security-Policy"@, c)),
        None => base,
    }
}

/// The text of an optional string.
pub open spec fn opt_text(o: Option<String>) -> Option<Seq<char>> {
    match o {
        Some(c) => Some(c@),
        None => None,
    }
}

fn pair(a: &str, b: String) -> (r: (String, String))
    ensures
        r.0@ == a@,
        r.1 == b,
{
    (text(a), b)
}

impl Interceptor for SecurityHeaders {
    open spec fn spec_priority(&self) -> i32 {
        100
    }

    /// Always answers with the security headers; the context is kept.
    open spec fn request_step(&self, before: InterceptorContext, after: InterceptorContext, r: Option<InterceptorAction>) -> bool {
        &&& after == before
        &&& r matches Some(a) && a matches InterceptorAction::ModifyHeaders { headers } && headers@.map_values(
            |p: (String, String)| (p.0@, p.1@),
        ) == security_headers(self.hsts_max_age, self.hsts_preload, opt_text(self.csp))
    }

    /// Responses pass unchanged.
    open spec fn response_step(
        &self,
        before: InterceptorContext,
        after: InterceptorContext,
        status: u16,
        body: Seq<u8>,
        r: Option<Vec<u8>>,
    ) -> bool {
        after == before && r is None
    }

    fn name(&self) -> &'static str {
        "security_headers"
    }

    fn priority(&self) -> (p: i32) {
        100
    }

    /// Always answers with the headers to add.
    fn on_request(&self, ctx: &mut InterceptorContext) -> (r: Option<InterceptorAction>)
        ensures
            r matches Some(a) && a matches InterceptorAction::ModifyHeaders { headers } && headers@.map_values(
                |p: (String, String)| (p.0@, p.1@),
            ) == security_headers(
                self.hsts_max_age,
                self.hsts_preload,
                opt_text(self.csp),
            ),
    {
        let d = decimal_text(self.hsts_max_age);
        let a = concat(chars_of("max-age=").as_slice(), d.as_slice());
        let b = concat(a.as_slice(), chars_of("; includeSubDomains").as_slice());
        let c = if self.hsts_preload {
            concat(b.as_slice(), chars_of("; preload").as_slice())
        } else {
            b
        };
        let mut headers: Vec<(String, String)> = Vec::new();
        headers.push(pair("Strict-Transport-Security", string_of(c.as_slice())));
        headers.push(pair("X-Content-Type-Options", text("nosniff")));
        headers.push(pair("X-Frame-Options", text("DENY")));
        headers.push(pair("Referrer-Policy", text("strict-origin-when-cross-origin")));
        match &self.csp {
            Some(csp) => {
                headers.push(pair("Content-Security-Policy", text(csp.as_str())));
            },
            None => {},
        }
        let ghost want = security_headers(self.hsts_max_age, self.hsts_preload, opt_text(self.csp));
        assert(headers@.map_values(|p: (String, String)| (p.0@, p.1@)) =~= want);
        Some(InterceptorAction::ModifyHeaders { headers })
    }

    fn on_response(&self, ctx: &mut InterceptorContext, status: u16, body: &[u8]) -> (r: Option<Vec<u8>>)
        ensures
            r is None,
    {
        None
    }
}

} // verus!
