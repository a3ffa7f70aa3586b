//! Transform rules for JSON bodies, selected by path prefix. Applying them
//! to a JSON document is done by the caller; the rule bookkeeping and the
//! text operations are here.
use vstd::prelude::*;
use vstd::string::StringSliceAdditionalSpecFns;
use crate::text::{chars_of, string_of, concat, has_prefix, starts_with};
use std::hash::Hasher;
use vstd::std_specs::hash::DefaultHasherAdditionalSpecFns;

verus! {

/// How a string value is rewritten.
#[derive(Debug, Clone, Copy, PartialEq, Eq, Structural)]
pub enum ValueTransform {
    Uppercase,
    Lowercase,
    Trim,
    Hash,
}

/// What a rule does to a body.
pub enum TransformAction {
    /// Replace all but the last `visible_chars` bytes of a string with `*`.
    MaskField { field: String, visible_chars: usize },
    RemoveField { field: String },
    AddField { field: String, value: String },
    RenameField { from: String, to: String },
    TransformValue { field: String, transform: ValueTransform },
}

/// A rule applied to bodies of requests whose path starts with `path_match`.
pub struct TransformRule {
    pub name: String,
    pub path_match: String,
    pub action: TransformAction,
}

/// The rules, in the order they were added.
pub struct TransformEngine {
    rules: Vec<TransformRule>,
}

impl TransformEngine {
    /// The rules.
    pub closed spec fn rules(&self) -> Seq<TransformRule> {
        self.rules@
    }

    pub fn new() -> (e: Self)
        ensures
            e.rules().len() == 0,
    {
        TransformEngine { rules: Vec::new() }
    }

    /// Adds a rule after the others.
    pub fn add_rule(&mut self, rule: TransformRule)
        ensures
            final(self).rules() == old(self).rules().push(rule),
    {
        self.rules.push(rule);
    }

    pub fn rule_count(&self) -> (n: usize)
        ensures
            n == self.rules().len(),
    {
        self.rules.len()
    }

    /// The rule at a position.
    pub fn rule_at(&self, i: usize) -> (r: &TransformRule)
        requires
            i < self.rules().len(),
        ensures
            *r == self.rules()[i as int],
    {
        &self.rules[i]
    }

    /// Positions of the rules that apply to a path, in order.
    pub fn rules_for(&self, path: &str) -> (idx: Vec<usize>)
        ensures
            forall|k: int| 0 <= k < idx@.len() ==> idx@[k] < self.rules().len(),
            forall|k: int, l: int| 0 <= k < l < idx@.len() ==> idx@[k] < idx@[l],
            forall|i: int| 0 <= i < self.rules().len() ==> (has_prefix(path@, (#[trigger] self.rules()[i]).path_match@) <==> idx@.contains(i as usize)),
    {
        let p = chars_of(path);
        let mut idx: Vec<usize> = Vec::new();
        let mut i: usize = 0;
        while i < self.rules.len()
            invariant
                i <= self.rules@.len(),
                p@ == path@,
                forall|k: int| 0 <= k < idx@.len() ==> idx@[k] < i,
                forall|k: int, l: int| 0 <= k < l < idx@.len() ==> idx@[k] < idx@[l],
                forall|j: int| 0 <= j < i ==> (has_prefix(path@, (#[trigger] self.rules@[j]).path_match@) <==> idx@.contains(j as usize)),
            decreases self.rules@.len() - i,
        {
            let ghost before = idx@;
            if starts_with(p.as_slice(), chars_of(self.rules[i].path_match.as_str()).as_slice()) {
                idx.push(i);
                proof {
                    assert(idx@[idx@.len() - 1] == i);
                    assert forall|j: int| 0 <= j < i implies (has_prefix(path@, (#[trigger] self.rules@[j]).path_match@) <==> idx@.contains(j as usize)) by {
                        if before.contains(j as usize) {
                            let k = choose|k: int| 0 <= k < before.len() && before[k] == j as usize;
                            assert(idx@[k] == j as usize);
                        }
                        if idx@.contains(j as usize) {
                            let k = choose|k: int| 0 <= k < idx@.len() && idx@[k] == j as usize;
                            if k < before.len() {
                                assert(before[k] == j as usize);
                            }
                        }
                    }
                }
            } else {
                proof {
                    assert(!idx@.contains(i)) by {
                        if idx@.contains(i) {
                            let k = choose|k: int| 0 <= k < idx@.len() && idx@[k] == i;
                        }
                    }
                }
            }
            i = i + 1;
        }
        idx
    }
}

/// `n` asterisks.
pub open spec fn stars(n: nat) -> Seq<char>
    decreases n,
{
    if n == 0 {
        Seq::empty()
    } else {
        stars((n - 1) as nat).push('*')
    }
}

fn star_text(n: usize) -> (r: Vec<char>)
    ensures
        r@ == stars(n as nat),
{
    let mut r: Vec<char> = Vec::new();
    let mut i: usize = 0;
    while i < n
        invariant
            i <= n,
            r@ == stars(i as nat),
        decreases n - i,
    {
        r.push('*');
        i = i + 1;
    }
    r
}

/// A string value rewritten: upper- or lower-cased (Unicode), trimmed, or
/// replaced by the lower-case hexadecimal `DefaultHasher` value of the text.
pub open spec fn transformed(s: Seq<char>, t: ValueTransform) -> Seq<char> {
    match t {
        ValueTransform::Uppercase => crate::text::uppercased(s),
        ValueTransform::Lowercase => crate::text::lowercased(s),
        ValueTransform::Trim => crate::text::trim_seq(s),
        ValueTransform::Hash => crate::fmt::hex(
            std::collections::hash_map::DefaultHasher::spec_finish(crate::deployment::feature_flags::text_writes(s)) as nat,
        ),
    }
}

/// Rewrites a string value.
pub fn transform_text(s: &str, t: ValueTransform) -> (r: String)
    ensures
        r@ == transformed(s@, t),
{
    match t {
        ValueTransform::Uppercase => crate::text::to_uppercase(s),
        ValueTransform::Lowercase => crate::text::to_lowercase(s),
        ValueTransform::Trim => string_of(crate::text::trim(chars_of(s).as_slice()).as_slice()),
        ValueTransform::Hash => {
            let mut h = std::collections::hash_map::DefaultHasher::new();
            crate::deployment::feature_flags::hash_text(&mut h, s);
            let v = h.finish();
            string_of(crate::fmt::hex_text(v).as_slice())
        },
    }
}

/// Masks a string value: all but its last `visible` bytes become `*`, one
/// per byte; a value of at most `visible` bytes is masked entirely. The cut
/// must fall on a character boundary.
pub fn mask_text(s: &str, visible: usize) -> (r: String)
    requires
        s.spec_bytes().len() <= usize::MAX,
        s.spec_bytes().len() > visible ==> vstd::utf8::is_char_boundary(
            s.spec_bytes(),
            s.spec_bytes().len() - visible,
        ),
    ensures
        s.spec_bytes().len() <= visible ==> r@ == stars(s.spec_bytes().len()),
        s.spec_bytes().len() > visible ==> exists|t: Seq<char>|
            vstd::utf8::encode_utf8(t) == s.spec_bytes().subrange(
                s.spec_bytes().len() - visible,
                s.spec_bytes().len() as int,
            ) && r@ == stars((s.spec_bytes().len() - visible) as nat) + t,
{
    let n = s.len();
    if n > visible {
        let (_, tail) = s.split_at(n - visible);
        let st = star_text(n - visible);
        let all = concat(st.as_slice(), chars_of(tail).as_slice());
        let r = string_of(all.as_slice());
        assert(vstd::utf8::encode_utf8(tail@) == tail.spec_bytes());
        assert(r@ == stars((n - visible) as nat) + tail@);
        r
    } else {
        string_of(star_text(n).as_slice())
    }
}

} // verus!
