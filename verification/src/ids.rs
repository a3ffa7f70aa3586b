//! Fresh identifiers for created records.
use vstd::prelude::*;

verus! {

/// A random version-4 UUID in its hyphenated text form
/// (`uuid::Uuid::new_v4().to_string()`); only the length, 36, is promised.
#[verifier::external_body]
pub(crate) fn new_id() -> (id: String)
    ensures
        id@.len() == 36,
{
    uuid::Uuid::new_v4().to_string()
}

} // verus!
