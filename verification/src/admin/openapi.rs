//! The per-service entries of the gateway's OpenAPI document: one templated
//! path under each service's prefix, with its tag and texts.
use vstd::prelude::*;
use crate::text::{chars_of, string_of, concat};
use crate::config::ServiceConfig;

verus! {

/// The documentation of one proxied path.
pub struct PathDoc {
    /// The templated path: the prefix and `{path}`.
    pub path: String,
    /// The tag: the service's name.
    pub tag: String,
    /// `GET` and the prefix.
    pub get_summary: String,
    /// `POST` and the prefix.
    pub post_summary: String,
    /// `Proxied to` and the upstream.
    pub description: String,
}

/// The entry of a service.
pub open spec fn path_doc_of(s: ServiceConfig, d: PathDoc) -> bool {
    &&& d.path@ == s.prefix@ + "{path}"@
    &&& d.tag@ == s.name@
    &&& d.get_summary@ == "GET "@ + s.prefix@
    &&& d.post_summary@ == "POST "@ + s.prefix@
    &&& d.description@ == "Proxied to "@ + s.upstream@
}

fn join(a: &str, b: &str) -> (r: String)
    ensures
        r@ == a@ + b@,
{
    string_of(concat(chars_of(a).as_slice(), chars_of(b).as_slice()).as_slice())
}

/// One entry per service, in configuration order.
pub fn openapi_paths(services: &[ServiceConfig]) -> (r: Vec<PathDoc>)
    ensures
        r@.len() == services@.len(),
        forall|i: int| 0 <= i < services@.len() ==> path_doc_of(services@[i], #[trigger] r@[i]),
{
    let mut r: Vec<PathDoc> = Vec::new();
    let mut i: usize = 0;
    while i < services.len()
        invariant
            i <= services@.len(),
            r@.len() == i,
            forall|j: int| 0 <= j < i ==> path_doc_of(services@[j], #[trigger] r@[j]),
        decreases services@.len() - i,
    {
        let s = &services[i];
        let d = PathDoc {
            path: join(s.prefix.as_str(), "{path}"),
            tag: string_of(chars_of(s.name.as_str()).as_slice()),
            get_summary: join("GET ", s.prefix.as_str()),
            post_summary: join("POST ", s.prefix.as_str()),
            description: join("Proxied to ", s.upstream.as_str()),
        };
        r.push(d);
        i = i + 1;
    }
    r
}

} // verus!
