//! The HTTP verb an outgoing call of a job or workflow step uses.
use vstd::prelude::*;
use crate::text::{uppercased, to_uppercase, eq_str, chars_of};

verus! {

/// The verbs that scheduled and workflow calls are sent with.
#[derive(Debug, Clone, Copy, PartialEq, Eq, Structural)]
pub enum CallVerb {
    Get,
    Post,
    Put,
    Delete,
}

/// The verb for an upper-cased method name: POST, PUT and DELETE are sent
/// as such, anything else as GET.
pub open spec fn verb_for(upper: Seq<char>) -> CallVerb {
    if upper == "POST"@ {
        CallVerb::Post
    } else if upper == "PUT"@ {
        CallVerb::Put
    } else if upper == "DELETE"@ {
        CallVerb::Delete
    } else {
        CallVerb::Get
    }
}

/// The verb for an already upper-cased method name.
pub fn verb_for_upper(upper: &[char]) -> (v: CallVerb)
    ensures
        v == verb_for(upper@),
{
    if eq_str(upper, "POST") {
        CallVerb::Post
    } else if eq_str(upper, "PUT") {
        CallVerb::Put
    } else if eq_str(upper, "DELETE") {
        CallVerb::Delete
    } else {
        CallVerb::Get
    }
}

/// The verb for a method name as configured: it is upper-cased first.
pub fn call_verb(method: &str) -> (v: CallVerb)
    ensures
        v == verb_for(uppercased(method@)),
{
    let up = to_uppercase(method);
    let cs = chars_of(up.as_str());
    verb_for_upper(cs.as_slice())
}

} // verus!
