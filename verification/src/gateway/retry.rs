//! Which proxied requests may be retried, and what to do after each attempt.
//!
//! Safe methods (GET, HEAD, OPTIONS) are retried; PUT and DELETE only when
//! the request carries an idempotency key; POST and PATCH never. A retry
//! follows a server error or a connect/timeout failure while attempts are
//! left. The backoff delays, with their jitter, are left to the caller.
use vstd::prelude::*;
use crate::text::{chars_of, to_lower, lower_seq, eq_str};

verus! {

/// HTTP request methods.
#[derive(Debug, Clone, PartialEq, Eq)]
pub enum HttpMethod {
    Get,
    Head,
    Options,
    Post,
    Put,
    Delete,
    Patch,
    /// Any other method, by its name.
    Other(String),
}

/// The method named by an (upper-case) method token.
pub open spec fn method_named(s: Seq<char>) -> Option<HttpMethod> {
    if s == "GET"@ {
        Some(HttpMethod::Get)
    } else if s == "HEAD"@ {
        Some(HttpMethod::Head)
    } else if s == "OPTIONS"@ {
        Some(HttpMethod::Options)
    } else if s == "POST"@ {
        Some(HttpMethod::Post)
    } else if s == "PUT"@ {
        Some(HttpMethod::Put)
    } else if s == "DELETE"@ {
        Some(HttpMethod::Delete)
    } else if s == "PATCH"@ {
        Some(HttpMethod::Patch)
    } else {
        None
    }
}

impl HttpMethod {
    /// The method for a method token; tokens other than the seven standard
    /// ones are kept as `Other`.
    pub fn parse(s: &str) -> (m: Self)
        ensures
            method_named(s@) is Some ==> m == method_named(s@)->0,
            method_named(s@) is None ==> (m matches HttpMethod::Other(t) && t@ == s@),
    {
        let c = chars_of(s);
        let cs = c.as_slice();
        if eq_str(cs, "GET") {
            HttpMethod::Get
        } else if eq_str(cs, "HEAD") {
            HttpMethod::Head
        } else if eq_str(cs, "OPTIONS") {
            HttpMethod::Options
        } else if eq_str(cs, "POST") {
            HttpMethod::Post
        } else if eq_str(cs, "PUT") {
            HttpMethod::Put
        } else if eq_str(cs, "DELETE") {
            HttpMethod::Delete
        } else if eq_str(cs, "PATCH") {
            HttpMethod::Patch
        } else {
            HttpMethod::Other(crate::text::string_of(cs))
        }
    }
}

/// Safe methods: GET, HEAD and OPTIONS.
pub open spec fn safe_method(m: HttpMethod) -> bool {
    m is Get || m is Head || m is Options
}

/// Whether any header is an idempotency key (`Idempotency-Key` or
/// `X-Idempotency-Key`, in any case).
pub open spec fn has_idempotency_key(names: Seq<Seq<char>>) -> bool {
    exists|i: int|
        0 <= i < names.len() && (lower_seq(#[trigger] names[i]) == "idempotency-key"@ || lower_seq(names[i])
            == "x-idempotency-key"@)
}

/// Whether a request may be retried.
pub open spec fn request_retryable(m: HttpMethod, names: Seq<Seq<char>>) -> bool {
    safe_method(m) || ((m is Put || m is Delete) && has_idempotency_key(names))
}

/// What a failed or finished attempt looked like.
pub enum AttemptOutcome {
    /// A response with this status.
    Status(u16),
    /// The connection failed or timed out.
    ConnectOrTimeout,
    /// Any other error.
    OtherError,
}

/// What to do after an attempt.
#[derive(Debug, Clone, Copy, PartialEq, Eq, Structural)]
pub enum RetryStep {
    /// Hand the outcome to the caller.
    Finish,
    /// Wait and try again.
    Retry,
}

/// Whether to retry after attempt number `attempt` (from 0) of at most
/// `max_retries` retries.
pub open spec fn step_after(retryable: bool, attempt: u32, max_retries: u32, o: AttemptOutcome) -> RetryStep {
    let more = retryable && attempt < max_retries;
    match o {
        AttemptOutcome::Status(s) => if more && 500 <= s <= 599 {
            RetryStep::Retry
        } else {
            RetryStep::Finish
        },
        AttemptOutcome::ConnectOrTimeout => if more {
            RetryStep::Retry
        } else {
            RetryStep::Finish
        },
        AttemptOutcome::OtherError => RetryStep::Finish,
    }
}

/// The retry settings of the proxy.
pub struct RetryPolicy {
    pub max_retries: u32,
    pub initial_delay_ms: u64,
}

impl RetryPolicy {
    pub fn new(max_retries: u32, delay_ms: u64) -> (p: Self)
        ensures
            p.max_retries == max_retries,
            p.initial_delay_ms == delay_ms,
    {
        RetryPolicy { max_retries, initial_delay_ms: delay_ms }
    }

    /// GET, HEAD and OPTIONS may always be retried.
    pub fn method_is_retryable(method: &HttpMethod) -> (r: bool)
        ensures
            r == safe_method(*method),
    {
        match method {
            HttpMethod::Get | HttpMethod::Head | HttpMethod::Options => true,
            _ => false,
        }
    }

    /// Whether a request with this method and these header names may be
    /// retried: safe methods always; PUT and DELETE with an idempotency key.
    pub fn is_request_retryable(method: &HttpMethod, header_names: &[String]) -> (r: bool)
        ensures
            r == request_retryable(*method, header_names@.map_values(|s: String| s@)),
    {
        if Self::method_is_retryable(method) {
            return true;
        }
        let ghost names = header_names@.map_values(|s: String| s@);
        let mut has_key = false;
        let mut i: usize = 0;
        while i < header_names.len()
            invariant
                i <= header_names@.len(),
                names == header_names@.map_values(|s: String| s@),
                has_key == exists|j: int|
                    0 <= j < i && (lower_seq(#[trigger] names[j]) == "idempotency-key"@ || lower_seq(names[j])
                        == "x-idempotency-key"@),
            decreases header_names@.len() - i,
        {
            let n = chars_of(header_names[i].as_str());
            let l = to_lower(n.as_slice());
            assert(n@ == names[i as int]);
            if eq_str(l.as_slice(), "idempotency-key") || eq_str(l.as_slice(), "x-idempotency-key") {
                has_key = true;
            }
            i = i + 1;
        }
        match method {
            HttpMethod::Put | HttpMethod::Delete => has_key,
            _ => false,
        }
    }

    /// What to do after attempt number `attempt`.
    pub fn next_step(&self, retryable: bool, attempt: u32, outcome: &AttemptOutcome) -> (s: RetryStep)
        ensures
            s == step_after(retryable, attempt, self.max_retries, *outcome),
    {
        let more = retryable && attempt < self.max_retries;
        match outcome {
            AttemptOutcome::Status(st) => if more && *st >= 500 && *st <= 599 {
                RetryStep::Retry
            } else {
                RetryStep::Finish
            },
            AttemptOutcome::ConnectOrTimeout => if more {
                RetryStep::Retry
            } else {
                RetryStep::Finish
            },
            AttemptOutcome::OtherError => RetryStep::Finish,
        }
    }
}

/// No more than `max_retries` retries follow the first attempt: at the last
/// attempt every outcome finishes.
pub proof fn law_retries_bounded(retryable: bool, max_retries: u32, o: AttemptOutcome)
    ensures
        step_after(retryable, max_retries, max_retries, o) == RetryStep::Finish,
{
}

/// A request that may not be retried is sent once.
pub proof fn law_unretryable_sent_once(attempt: u32, max_retries: u32, o: AttemptOutcome)
    ensures
        step_after(false, attempt, max_retries, o) == RetryStep::Finish,
{
}

} // verus!
