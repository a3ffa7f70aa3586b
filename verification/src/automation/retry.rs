//! Repeating a scheduled call whose response is in a retry list, or that
//! failed, until the attempts run out. The waits between attempts (an
//! exponential backoff) and the calls themselves are left to the caller.
use vstd::prelude::*;
use crate::text::{chars_of, string_of, concat};
use crate::fmt::{decimal, decimal_text};

verus! {

/// Drives repeated attempts of one call.
pub struct RetryManager;

/// What to do after an attempt.
pub enum RetryDecision {
    /// Wait and try again.
    Again,
    /// Done: the response's status, how many attempts it took, and whether
    /// the status was 2xx.
    Done { status: u16, attempts: u32, success: bool },
    /// Every attempt failed; the message names their number and the last error.
    Failed(String),
}

/// The outcome of attempt number `attempt` (from 1).
pub enum AttemptResult {
    Response(u16),
    Error(String),
}

impl RetryManager {
    /// After attempt number `attempt` (counting from 1) of at most
    /// `max_attempts`: a status in `retry_on_status` is tried again while
    /// attempts are left, any other status ends the run; an error is tried
    /// again while attempts are left and otherwise ends it with
    /// "All N attempts failed. Last: E".
    pub fn decide(attempt: u32, max_attempts: u32, retry_on_status: &[u16], result: &AttemptResult) -> (d:
        RetryDecision)
        ensures
            match *result {
                AttemptResult::Response(s) => if retry_on_status@.contains(s) && attempt < max_attempts {
                    d is Again
                } else {
                    d == RetryDecision::Done { status: s, attempts: attempt, success: 200 <= s <= 299 }
                },
                AttemptResult::Error(e) => if attempt >= max_attempts {
                    d matches RetryDecision::Failed(m) && m@ == "All "@ + decimal(max_attempts as nat)
                        + " attempts failed. Last: "@ + e@
                } else {
                    d is Again
                },
            },
    {
        match result {
            AttemptResult::Response(s) => {
                let mut listed = false;
                let mut i: usize = 0;
                while i < retry_on_status.len()
                    invariant
                        i <= retry_on_status@.len(),
                        listed == exists|j: int| 0 <= j < i && retry_on_status@[j] == *s,
                    decreases retry_on_status@.len() - i,
                {
                    if retry_on_status[i] == *s {
                        listed = true;
                    }
                    i = i + 1;
                }
                proof {
                    assert(listed == retry_on_status@.contains(*s));
                }
                if listed && attempt < max_attempts {
                    RetryDecision::Again
                } else {
                    RetryDecision::Done { status: *s, attempts: attempt, success: *s >= 200 && *s <= 299 }
                }
            },
            AttemptResult::Error(e) => {
                if attempt >= max_attempts {
                    let n = decimal_text(max_attempts as u64);
                    let a = concat(chars_of("All ").as_slice(), n.as_slice());
                    let b = concat(a.as_slice(), chars_of(" attempts failed. Last: ").as_slice());
                    let c = concat(b.as_slice(), chars_of(e.as_str()).as_slice());
                    RetryDecision::Failed(string_of(c.as_slice()))
                } else {
                    RetryDecision::Again
                }
            },
        }
    }
}

} // verus!
