//! The labels under which request metrics are counted.
use vstd::prelude::*;
use crate::text::{chars_of, string_of, concat, split_on, split_seq};

verus! {

/// The metric label of a request path: a slash and the path's first
/// segment (the piece between the first and the second `/`); a path
/// without `/` is its own label.
pub open spec fn metric_prefix(path: Seq<char>) -> Seq<char> {
    let parts = split_seq(path, '/');
    if parts.len() >= 2 {
        seq!['/'] + parts[1]
    } else {
        path
    }
}

/// The metric label of a request path.
pub fn extract_prefix(path: &str) -> (r: String)
    ensures
        r@ == metric_prefix(path@),
{
    let p = chars_of(path);
    let parts = split_on(p.as_slice(), '/');
    proof {
        assert(parts@.len() == split_seq(path@, '/').len());
    }
    if parts.len() >= 2 {
        proof {
            assert(parts@[1]@ == split_seq(path@, '/')[1]);
        }
        let slash = chars_of("/");
        proof {
            reveal_strlit("/");
            assert(slash@ =~= seq!['/']);
        }
        let v = concat(slash.as_slice(), parts[1].as_slice());
        string_of(v.as_slice())
    } else {
        string_of(p.as_slice())
    }
}

} // verus!
