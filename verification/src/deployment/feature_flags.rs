//! Feature flags with targeting rules and a percentage rollout. A flag is
//! on for a context when it is enabled, every rule matches the context, and
//! the context falls in the rollout percentage. Unknown flags are off.
use vstd::prelude::*;
use crate::store::VecMap;
use std::hash::Hasher;
use vstd::std_specs::hash::DefaultHasherAdditionalSpecFns;
use crate::text::{chars_of, string_of, eq, contains, contains_seq, has_prefix, starts_with, split_on, split_seq, trim,
    trim_seq};

verus! {

/// How a rule compares the context's attribute with its value.
#[derive(Debug, Clone, Copy, PartialEq, Eq, Structural)]
pub enum Operator {
    Equals,
    NotEquals,
    Contains,
    StartsWith,
    /// The value is a comma-separated list; surrounding spaces are ignored.
    InList,
}

/// A targeting rule.
pub struct TargetRule {
    /// `user_id`, `country`, `header:X-Tenant`, ...
    pub attribute: String,
    pub operator: Operator,
    pub value: String,
}

/// A feature flag.
pub struct FeatureFlag {
    pub name: String,
    pub enabled: bool,
    pub description: String,
    /// Rollout share, 0 to 100.
    pub percentage: u32,
    pub rules: Vec<TargetRule>,
    pub created_at: u64,
    pub updated_at: u64,
    pub eval_count: u64,
    pub true_count: u64,
}

/// The value of an attribute in a context (the first pair with that key),
/// or the empty text.
pub open spec fn attr_value(ctx: Seq<(String, String)>, key: Seq<char>) -> Seq<char>
    decreases ctx.len(),
{
    if ctx.len() == 0 {
        Seq::empty()
    } else if ctx[0].0@ == key {
        ctx[0].1@
    } else {
        attr_value(ctx.drop_first(), key)
    }
}

/// Whether a rule matches an attribute value.
pub open spec fn rule_matches(op: Operator, value: Seq<char>, attr: Seq<char>) -> bool {
    match op {
        Operator::Equals => attr == value,
        Operator::NotEquals => attr != value,
        Operator::Contains => contains_seq(attr, value),
        Operator::StartsWith => has_prefix(attr, value),
        Operator::InList => exists|i: int|
            0 <= i < split_seq(value, ',').len() && trim_seq(#[trigger] split_seq(value, ',')[i]) == attr,
    }
}

/// Whether every rule of a flag matches the context.
pub open spec fn rules_match(rules: Seq<TargetRule>, ctx: Seq<(String, String)>) -> bool {
    forall|i: int| 0 <= i < rules.len() ==> rule_matches(
        (#[trigger] rules[i]).operator,
        rules[i].value@,
        attr_value(ctx, rules[i].attribute@),
    )
}

/// Whether a flag is on for a context whose rollout bucket (0 to 99) is
/// `bucket`.
pub open spec fn flag_on(f: FeatureFlag, ctx: Seq<(String, String)>, bucket: u32) -> bool {
    f.enabled && rules_match(f.rules@, ctx) && (f.percentage >= 100 || bucket < f.percentage)
}

proof fn lemma_attr_skip(ctx: Seq<(String, String)>, key: Seq<char>, i: int)
    requires
        0 <= i <= ctx.len(),
        forall|j: int| 0 <= j < i ==> (#[trigger] ctx[j]).0@ != key,
    ensures
        attr_value(ctx, key) == attr_value(ctx.subrange(i, ctx.len() as int), key),
    decreases i,
{
    if i == 0 {
        assert(ctx.subrange(0, ctx.len() as int) =~= ctx);
    } else {
        lemma_attr_skip(ctx, key, i - 1);
        let t = ctx.subrange(i - 1, ctx.len() as int);
        assert(t[0] == ctx[i - 1]);
        assert(t.drop_first() =~= ctx.subrange(i, ctx.len() as int));
    }
}

fn lookup(ctx: &[(String, String)], key: &str) -> (v: Vec<char>)
    ensures
        v@ == attr_value(ctx@, key@),
{
    let k = chars_of(key);
    let mut i: usize = 0;
    while i < ctx.len()
        invariant
            i <= ctx@.len(),
            k@ == key@,
            forall|j: int| 0 <= j < i ==> (#[trigger] ctx@[j]).0@ != key@,
        decreases ctx@.len() - i,
    {
        if eq(chars_of(ctx[i].0.as_str()).as_slice(), k.as_slice()) {
            proof {
                lemma_attr_skip(ctx@, key@, i as int);
                assert(ctx@.subrange(i as int, ctx@.len() as int)[0] == ctx@[i as int]);
            }
            return chars_of(ctx[i].1.as_str());
        }
        i = i + 1;
    }
    proof {
        lemma_attr_skip(ctx@, key@, i as int);
    }
    Vec::new()
}

/// Whether one rule matches an attribute value.
pub fn rule_holds(rule: &TargetRule, attr: &[char]) -> (r: bool)
    ensures
        r == rule_matches(rule.operator, rule.value@, attr@),
{
    let v = chars_of(rule.value.as_str());
    match rule.operator {
        Operator::Equals => eq(attr, v.as_slice()),
        Operator::NotEquals => !eq(attr, v.as_slice()),
        Operator::Contains => contains(attr, v.as_slice()),
        Operator::StartsWith => starts_with(attr, v.as_slice()),
        Operator::InList => {
            let parts = split_on(v.as_slice(), ',');
            let ghost ps = parts@.map_values(|p: Vec<char>| p@);
            let mut i: usize = 0;
            while i < parts.len()
                invariant
                    i <= parts@.len(),
                    ps == parts@.map_values(|p: Vec<char>| p@),
                    ps == split_seq(rule.value@, ','),
                    rule.operator == Operator::InList,
                    forall|j: int| 0 <= j < i ==> trim_seq(#[trigger] ps[j]) != attr@,
                decreases parts@.len() - i,
            {
                let t = trim(parts[i].as_slice());
                assert(ps[i as int] == parts@[i as int]@);
                if eq(t.as_slice(), attr) {
                    assert(trim_seq(split_seq(rule.value@, ',')[i as int]) == attr@);
                    return true;
                }
                i = i + 1;
            }
            false
        },
    }
}

/// Whether every rule matches the context.
pub fn all_rules_hold(rules: &Vec<TargetRule>, context: &[(String, String)]) -> (r: bool)
    ensures
        r == rules_match(rules@, context@),
{
    let mut j: usize = 0;
    while j < rules.len()
        invariant
            j <= rules@.len(),
            forall|q: int| 0 <= q < j ==> rule_matches(
                (#[trigger] rules@[q]).operator,
                rules@[q].value@,
                attr_value(context@, rules@[q].attribute@),
            ),
        decreases rules@.len() - j,
    {
        let attr = lookup(context, rules[j].attribute.as_str());
        if !rule_holds(&rules[j], attr.as_slice()) {
            return false;
        }
        j = j + 1;
    }
    true
}

/// Saturating increment.
pub open spec fn inc(x: u64) -> u64 {
    if x == u64::MAX {
        u64::MAX
    } else {
        (x + 1) as u64
    }
}

/// The flags, by name.
pub struct FeatureFlagManager {
    flags: VecMap<Vec<char>, FeatureFlag>,
}

/// What an evaluation of flag `name` for a context with rollout bucket
/// `bucket` does: an unknown flag is off and nothing changes; a known one
/// is on as `flag_on` says, its evaluations are counted, and so are the
/// ones that come out on. Other flags are untouched.
pub open spec fn evaluated(
    before: Map<Seq<char>, FeatureFlag>,
    after: Map<Seq<char>, FeatureFlag>,
    name: Seq<char>,
    ctx: Seq<(String, String)>,
    bucket: u32,
    on: bool,
) -> bool {
    &&& after.dom() == before.dom()
    &&& forall|k: Seq<char>| k != name && #[trigger] before.contains_key(k) ==> after[k] == before[k]
    &&& !before.contains_key(name) ==> !on && after == before
    &&& before.contains_key(name) ==> {
        let f0 = before[name];
        &&& on == flag_on(f0, ctx, bucket)
        &&& after[name] == FeatureFlag {
            eval_count: inc(f0.eval_count),
            true_count: if on { inc(f0.true_count) } else { f0.true_count },
            ..f0
        }
    }
}

/// Text order (`String`'s `Ord`: byte order of UTF-8, which is the order
/// of the characters): `a` comes strictly before `b`.
pub open spec fn text_lt(a: Seq<char>, b: Seq<char>) -> bool
    decreases a.len(),
{
    if a.len() == 0 {
        b.len() > 0
    } else if b.len() == 0 {
        false
    } else if a[0] != b[0] {
        a[0] < b[0]
    } else {
        text_lt(a.drop_first(), b.drop_first())
    }
}

proof fn lemma_text_lt_trans(a: Seq<char>, b: Seq<char>, c: Seq<char>)
    requires
        text_lt(a, b),
        text_lt(b, c),
    ensures
        text_lt(a, c),
    decreases a.len(),
{
    if a.len() > 0 && b.len() > 0 && c.len() > 0 && a[0] == b[0] && b[0] == c[0] {
        lemma_text_lt_trans(a.drop_first(), b.drop_first(), c.drop_first());
    }
}

proof fn lemma_text_lt_irrefl(a: Seq<char>)
    ensures
        !text_lt(a, a),
    decreases a.len(),
{
    if a.len() > 0 {
        lemma_text_lt_irrefl(a.drop_first());
    }
}

fn text_less(a: &[char], b: &[char]) -> (r: bool)
    ensures
        r == text_lt(a@, b@),
{
    let mut i: usize = 0;
    assert(a@.subrange(0, a@.len() as int) =~= a@);
    assert(b@.subrange(0, b@.len() as int) =~= b@);
    while i < a.len() && i < b.len() && a[i] == b[i]
        invariant
            i <= a@.len(),
            i <= b@.len(),
            text_lt(a@, b@) == text_lt(a@.subrange(i as int, a@.len() as int), b@.subrange(i as int, b@.len() as int)),
        decreases a@.len() - i,
    {
        proof {
            let x = a@.subrange(i as int, a@.len() as int);
            let y = b@.subrange(i as int, b@.len() as int);
            assert(x.drop_first() =~= a@.subrange(i + 1, a@.len() as int));
            assert(y.drop_first() =~= b@.subrange(i + 1, b@.len() as int));
        }
        i = i + 1;
    }
    proof {
        let x = a@.subrange(i as int, a@.len() as int);
        let y = b@.subrange(i as int, b@.len() as int);
        if i < a@.len() && i < b@.len() {
            assert(x[0] == a@[i as int] && y[0] == b@[i as int]);
        }
    }
    if i == a.len() {
        i < b.len()
    } else if i == b.len() {
        false
    } else {
        a[i] < b[i]
    }
}

/// The pairs are in key order (ties kept as they came).
pub open spec fn keys_sorted(s: Seq<(String, String)>) -> bool {
    forall|i: int, j: int| 0 <= i < j < s.len() ==> !text_lt(#[trigger] s[j].0@, #[trigger] s[i].0@)
}

/// The context's pairs sorted by key, stably.
pub fn sorted_by_key(ctx: &[(String, String)]) -> (r: Vec<(String, String)>)
    ensures
        keys_sorted(r@),
        r@.to_multiset() == ctx@.to_multiset(),
{
    let mut r: Vec<(String, String)> = Vec::new();
    let mut i: usize = 0;
    assert(ctx@.subrange(0, 0) =~= Seq::<(String, String)>::empty());
    while i < ctx.len()
        invariant
            i <= ctx@.len(),
            keys_sorted(r@),
            r@.to_multiset() == ctx@.subrange(0, i as int).to_multiset(),
        decreases ctx@.len() - i,
    {
        let item = (ctx[i].0.clone(), ctx[i].1.clone());
        let key = chars_of(item.0.as_str());
        let mut p: usize = 0;
        while p < r.len() && !text_less(key.as_slice(), chars_of(r[p].0.as_str()).as_slice())
            invariant
                p <= r@.len(),
                key@ == item.0@,
                forall|q: int| 0 <= q < p ==> !text_lt(item.0@, #[trigger] r@[q].0@),
            decreases r@.len() - p,
        {
            p = p + 1;
        }
        let ghost before = r@;
        r.insert(p, item);
        proof {
            assert(r@ == before.insert(p as int, item));
            assert forall|a: int, b: int| 0 <= a < b < r@.len() implies !text_lt(#[trigger] r@[b].0@, #[trigger] r@[a].0@) by {
                if a < p && b == p {
                } else if a == p && b > p {
                    if p < before.len() {
                        assert(text_lt(item.0@, before[p as int].0@));
                        if text_lt(r@[b].0@, item.0@) {
                            if b - 1 == p {
                                lemma_text_lt_trans(item.0@, before[p as int].0@, item.0@);
                                lemma_text_lt_irrefl(item.0@);
                            } else {
                                lemma_text_lt_trans(before[b - 1].0@, item.0@, before[p as int].0@);
                                assert(r@[b] == before[b - 1]);
                            }
                        }
                    }
                } else if b < p {
                    assert(r@[a] == before[a] && r@[b] == before[b]);
                } else if a < p && b > p {
                    assert(r@[a] == before[a] && r@[b] == before[b - 1]);
                } else {
                    assert(r@[a] == before[a - 1] && r@[b] == before[b - 1]);
                }
            }
            assert(ctx@.subrange(0, i + 1) =~= ctx@.subrange(0, i as int).push(ctx@[i as int]));
            assert(item == ctx@[i as int]);
            vstd::seq_lib::to_multiset_insert(before, p as int, item);
            vstd::seq_lib::to_multiset_build(ctx@.subrange(0, i as int), ctx@[i as int]);
        }
        i = i + 1;
    }
    assert(ctx@.subrange(0, ctx@.len() as int) =~= ctx@);
    r
}

/// What hashing a text feeds a hasher (`<str as Hash>::hash`): its UTF-8
/// bytes, then the byte 0xff.
pub open spec fn text_writes(t: Seq<char>) -> Seq<Seq<u8>> {
    seq![vstd::utf8::encode_utf8(t), seq![0xffu8]]
}

/// What hashing the pairs, then a name, feeds a hasher.
pub open spec fn bucket_writes(pairs: Seq<(String, String)>, name: Seq<char>) -> Seq<Seq<u8>>
    decreases pairs.len(),
{
    if pairs.len() == 0 {
        text_writes(name)
    } else {
        text_writes(pairs[0].0@) + text_writes(pairs[0].1@) + bucket_writes(pairs.drop_first(), name)
    }
}

pub(crate) fn hash_text(h: &mut std::collections::hash_map::DefaultHasher, t: &str)
    ensures
        final(h)@ == old(h)@ + text_writes(t@),
{
    let bytes = t.as_bytes();
    h.write(bytes);
    let end: [u8; 1] = [0xff];
    let tail = end.as_slice();
    assert(tail@ =~= seq![0xffu8]);
    h.write(tail);
    assert(h@ =~= old(h)@ + text_writes(t@));
}

/// The rollout bucket of a context for a flag: the `DefaultHasher` value
/// of the context's pairs in key order, then of the flag's name, modulo 100.
pub fn rollout_bucket(name: &str, context: &[(String, String)]) -> (b: u32)
    ensures
        b < 100,
        exists|s: Seq<(String, String)>|
            keys_sorted(s) && s.to_multiset() == context@.to_multiset() && b == #[trigger] std::collections::hash_map::DefaultHasher::spec_finish(
                bucket_writes(s, name@),
            ) % 100,
{
    let sorted = sorted_by_key(context);
    let mut h = std::collections::hash_map::DefaultHasher::new();
    let mut i: usize = 0;
    assert(sorted@.subrange(0, sorted@.len() as int) =~= sorted@);
    assert(h@ + bucket_writes(sorted@, name@) =~= bucket_writes(sorted@, name@));
    while i < sorted.len()
        invariant
            i <= sorted@.len(),
            h@ + bucket_writes(sorted@.subrange(i as int, sorted@.len() as int), name@) == bucket_writes(sorted@, name@),
        decreases sorted@.len() - i,
    {
        proof {
            let t = sorted@.subrange(i as int, sorted@.len() as int);
            assert(t.drop_first() =~= sorted@.subrange(i + 1, sorted@.len() as int));
            assert(t[0] == sorted@[i as int]);
        }
        let ghost h0 = h@;
        hash_text(&mut h, sorted[i].0.as_str());
        hash_text(&mut h, sorted[i].1.as_str());
        proof {
            let t = sorted@.subrange(i as int, sorted@.len() as int);
            assert(h@ + bucket_writes(sorted@.subrange(i + 1, sorted@.len() as int), name@) =~= h0 + bucket_writes(t, name@));
        }
        i = i + 1;
    }
    proof {
        assert(sorted@.subrange(sorted@.len() as int, sorted@.len() as int) =~= Seq::<(String, String)>::empty());
    }
    hash_text(&mut h, name);
    proof {
        assert(h@ =~= bucket_writes(sorted@, name@));
    }
    let v = h.finish();
    (v % 100) as u32
}

impl FeatureFlagManager {
    /// The flags, by name.
    pub closed spec fn flags(&self) -> Map<Seq<char>, FeatureFlag> {
        self.flags.map()
    }

    pub fn new() -> (m: Self)
        ensures
            m.flags() == Map::<Seq<char>, FeatureFlag>::empty(),
    {
        FeatureFlagManager { flags: VecMap::new() }
    }

    /// Creates (or replaces) a flag without rules at `now`.
    pub fn create_at(&mut self, name: String, description: String, enabled: bool, percentage: u32, now: u64)
        ensures
            final(self).flags().dom() == old(self).flags().dom().insert(name@),
            forall|k: Seq<char>| k != name@ && #[trigger] old(self).flags().contains_key(k) ==> final(self).flags()[k] == old(self).flags()[k],
            ({
                let f = final(self).flags()[name@];
                &&& f.name@ == name@ && f.description == description && f.enabled == enabled && f.percentage == percentage
                &&& f.rules@.len() == 0 && f.created_at == now && f.updated_at == now && f.eval_count == 0 && f.true_count == 0
            }),
    {
        let key = chars_of(name.as_str());
        let f = FeatureFlag {
            name,
            enabled,
            description,
            percentage,
            rules: Vec::new(),
            created_at: now,
            updated_at: now,
            eval_count: 0,
            true_count: 0,
        };
        self.flags.insert(key, f);
    }

    /// `create_at` at the current time.
    pub fn create(&mut self, name: String, description: String, enabled: bool, percentage: u32)
        ensures
            final(self).flags().dom() == old(self).flags().dom().insert(name@),
            final(self).flags()[name@].enabled == enabled,
            final(self).flags()[name@].percentage == percentage,
            forall|k: Seq<char>| k != name@ && #[trigger] old(self).flags().contains_key(k) ==> final(self).flags()[k] == old(self).flags()[k],
            ({
                let f = final(self).flags()[name@];
                &&& f.name@ == name@ && f.description == description
                &&& f.rules@.len() == 0 && f.created_at == f.updated_at && f.eval_count == 0 && f.true_count == 0
            }),
    {
        let now = crate::clock::now_secs();
        self.create_at(name, description, enabled, percentage, now)
    }

    /// Evaluates a flag for a context whose rollout bucket is `bucket`:
    /// every evaluation is counted, and so is every one that comes out on.
    pub fn evaluate_with_bucket(&mut self, name: &str, context: &[(String, String)], bucket: u32) -> (on: bool)
        ensures
            evaluated(old(self).flags(), final(self).flags(), name@, context@, bucket, on),
    {
        let key = chars_of(name);
        match self.flags.position(&key) {
            None => {
                assert(self.flags.map() =~= old(self).flags());
                false
            },
            Some(i) => {
                let ghost before = self.flags.map();
                let (k, mut f) = self.flags.take_at(i);
                let ghost f0 = f;
                f.eval_count = f.eval_count.saturating_add(1);
                let mut on = f.enabled;
                if on {
                    on = all_rules_hold(&f.rules, context);
                    if on && f.percentage < 100 && bucket >= f.percentage {
                        on = false;
                    }
                }
                if on {
                    f.true_count = f.true_count.saturating_add(1);
                }
                self.flags.insert_at(i, k, f);
                proof {
                    assert(self.flags.map().dom() =~= before.dom());
                }
                on
            },
        }
    }

    /// Evaluates a flag for a context, its rollout bucket computed from
    /// the context and the flag's name.
    pub fn evaluate(&mut self, name: &str, context: &[(String, String)]) -> (on: bool)
        ensures
            exists|b: u32| b < 100 && #[trigger] evaluated(old(self).flags(), final(self).flags(), name@, context@, b, on),
    {
        let b = rollout_bucket(name, context);
        let on = self.evaluate_with_bucket(name, context, b);
        assert(evaluated(old(self).flags(), self.flags(), name@, context@, b, on));
        on
    }

    /// Adds a targeting rule to a flag; tells whether the flag exists.
    pub fn add_rule(&mut self, flag_name: &str, rule: TargetRule) -> (found: bool)
        ensures
            found == old(self).flags().contains_key(flag_name@),
            final(self).flags().dom() == old(self).flags().dom(),
            forall|k: Seq<char>| k != flag_name@ && #[trigger] old(self).flags().contains_key(k) ==> final(self).flags()[k] == old(self).flags()[k],
            found ==> final(self).flags()[flag_name@].rules@ == old(self).flags()[flag_name@].rules@.push(rule),
            found ==> final(self).flags()[flag_name@] == (FeatureFlag { rules: final(self).flags()[flag_name@].rules, ..old(self).flags()[flag_name@] }),
            !found ==> final(self).flags() == old(self).flags(),
    {
        let key = chars_of(flag_name);
        match self.flags.position(&key) {
            None => {
                assert(self.flags.map() =~= old(self).flags());
                false
            },
            Some(i) => {
                let ghost before = self.flags.map();
                let (k, mut f) = self.flags.take_at(i);
                f.rules.push(rule);
                self.flags.insert_at(i, k, f);
                proof {
                    assert(self.flags.map().dom() =~= before.dom());
                }
                true
            },
        }
    }

    /// Flips a flag and gives its new state; `None` for an unknown flag.
    pub fn toggle(&mut self, name: &str) -> (r: Option<bool>)
        ensures
            final(self).flags().dom() == old(self).flags().dom(),
            forall|k: Seq<char>| k != name@ && #[trigger] old(self).flags().contains_key(k) ==> final(self).flags()[k] == old(self).flags()[k],
            old(self).flags().contains_key(name@) ==> r == Some(!old(self).flags()[name@].enabled)
                && final(self).flags()[name@] == (FeatureFlag { enabled: !old(self).flags()[name@].enabled, ..old(self).flags()[name@] }),
            !old(self).flags().contains_key(name@) ==> r is None && final(self).flags() == old(self).flags(),
    {
        let key = chars_of(name);
        match self.flags.position(&key) {
            None => {
                assert(self.flags.map() =~= old(self).flags());
                None
            },
            Some(i) => {
                let ghost before = self.flags.map();
                let (k, mut f) = self.flags.take_at(i);
                f.enabled = !f.enabled;
                let e = f.enabled;
                self.flags.insert_at(i, k, f);
                proof {
                    assert(self.flags.map().dom() =~= before.dom());
                }
                Some(e)
            },
        }
    }

    /// Number of flags.
    pub fn count(&self) -> (n: usize)
        ensures
            n == self.flags().len(),
    {
        let n = self.flags.len();
        proof {
            crate::store::lemma_dom_len(self.flags.keys(), self.flags.map());
        }
        n
    }
}

/// A `StartsWith` rule matches an attribute exactly when the rule's value is
/// its beginning: the attribute is at least as long, and its first
/// characters are, one by one, those of the value. A match also counts as
/// the attribute containing the value, and every attribute starts with
/// itself.
pub proof fn law_starts_with_is_prefix(value: Seq<char>, attr: Seq<char>)
    ensures
        rule_matches(Operator::StartsWith, value, attr) <==> (value.len() <= attr.len() && forall|k: int|
            0 <= k < value.len() ==> attr[k] == value[k]),
        rule_matches(Operator::StartsWith, value, attr) ==> rule_matches(Operator::Contains, value, attr),
        rule_matches(Operator::StartsWith, attr, attr),
{
    if value.len() <= attr.len() && forall|k: int| 0 <= k < value.len() ==> attr[k] == value[k] {
        assert(attr.subrange(0, value.len() as int) =~= value);
    }
    if rule_matches(Operator::StartsWith, value, attr) {
        assert forall|k: int| 0 <= k < value.len() implies attr[k] == value[k] by {
            assert(attr.subrange(0, value.len() as int)[k] == attr[k]);
        }
        assert(crate::text::occurs_at(attr, value, 0));
    }
    assert(attr.subrange(0, attr.len() as int) =~= attr);
}

/// A flag whose rules include a `StartsWith` rule is off for a context whose
/// attribute does not begin with the rule's value.
pub proof fn law_starts_with_rule_gates_flag(f: FeatureFlag, ctx: Seq<(String, String)>, bucket: u32, r: int, k: int)
    requires
        0 <= r < f.rules@.len(),
        f.rules@[r].operator == Operator::StartsWith,
        0 <= k < f.rules@[r].value@.len(),
        k < attr_value(ctx, f.rules@[r].attribute@).len(),
        attr_value(ctx, f.rules@[r].attribute@)[k] != f.rules@[r].value@[k],
    ensures
        !flag_on(f, ctx, bucket),
{
    law_starts_with_is_prefix(f.rules@[r].value@, attr_value(ctx, f.rules@[r].attribute@));
}

/// A disabled flag is off for every context and bucket.
pub proof fn law_disabled_flag_off(f: FeatureFlag, ctx: Seq<(String, String)>, bucket: u32)
    requires
        !f.enabled,
    ensures
        !flag_on(f, ctx, bucket),
{
}

} // verus!
