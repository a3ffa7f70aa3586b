//! JSON bodies as a tree, and the body rewrites a service can configure:
//! fields removed or redacted at every depth of a response body; fields
//! removed, added or renamed at the top of a request body.
use vstd::prelude::*;
use crate::text::{chars_of, string_of, eq};
use crate::config::texts;

verus! {

/// A JSON document. An object's members have distinct names.
#[derive(Debug, PartialEq)]
pub enum Json {
    Null,
    Bool(bool),
    /// A number, by its JSON text.
    Number(String),
    Str(String),
    Array(Vec<Json>),
    Object(Vec<(String, Json)>),
}

/// A JSON document with its texts as character sequences.
pub enum JsonV {
    Null,
    Bool(bool),
    Number(Seq<char>),
    Str(Seq<char>),
    Array(Seq<JsonV>),
    Object(Seq<(Seq<char>, JsonV)>),
}

/// The view of a document.
pub open spec fn jv(j: Json) -> JsonV
    decreases j,
{
    match j {
        Json::Null => JsonV::Null,
        Json::Bool(b) => JsonV::Bool(b),
        Json::Number(s) => JsonV::Number(s@),
        Json::Str(s) => JsonV::Str(s@),
        Json::Array(xs) => JsonV::Array(
            Seq::new(xs@.len(), |i: int| if 0 <= i < xs@.len() { jv(xs@[i]) } else { JsonV::Null }),
        ),
        Json::Object(ms) => JsonV::Object(
            Seq::new(
                ms@.len(),
                |i: int| if 0 <= i < ms@.len() { (ms@[i].0@, jv(ms@[i].1)) } else { (Seq::empty(), JsonV::Null) },
            ),
        ),
    }
}

/// Members whose name is not in `remove`.
pub open spec fn kept_by(remove: Seq<Seq<char>>) -> spec_fn((Seq<char>, JsonV)) -> bool {
    |m: (Seq<char>, JsonV)| !remove.contains(m.0)
}

/// A member after redaction: a name in `redact` gets the redaction text,
/// any other member is scrubbed in turn.
pub open spec fn scrub_member(m: (Seq<char>, JsonV), redact: Seq<Seq<char>>, remove: Seq<Seq<char>>, rv: Seq<char>) -> (
    Seq<char>,
    JsonV,
)
    decreases m.1, 1nat,
{
    if redact.contains(m.0) {
        (m.0, JsonV::Str(rv))
    } else {
        (m.0, scrub(m.1, redact, remove, rv))
    }
}

/// Each member after redaction, in order, before any is dropped.
pub open spec fn scrub_members(ms: Seq<(Seq<char>, JsonV)>, redact: Seq<Seq<char>>, remove: Seq<Seq<char>>, rv: Seq<char>) -> Seq<
    (Seq<char>, JsonV),
>
    decreases ms, 2nat,
{
    Seq::new(
        ms.len(),
        |i: int| if 0 <= i < ms.len() {
            scrub_member(ms[i], redact, remove, rv)
        } else {
            (Seq::empty(), JsonV::Null)
        },
    )
}

/// A response body scrubbed at every depth: in each object the members
/// named in `remove` are dropped and those named in `redact` get the text
/// `rv`; every other value is scrubbed the same way.
pub open spec fn scrub(v: JsonV, redact: Seq<Seq<char>>, remove: Seq<Seq<char>>, rv: Seq<char>) -> JsonV
    decreases v, 0nat,
{
    match v {
        JsonV::Array(xs) => JsonV::Array(
            Seq::new(xs.len(), |i: int| if 0 <= i < xs.len() { scrub(xs[i], redact, remove, rv) } else { JsonV::Null }),
        ),
        JsonV::Object(ms) => JsonV::Object(scrub_members(ms, redact, remove, rv).filter(kept_by(remove))),
        _ => v,
    }
}

/// Whether a name is listed.
pub fn listed(names: &Vec<String>, name: &str) -> (b: bool)
    ensures
        b == texts(names@).contains(name@),
{
    let key = chars_of(name);
    let mut i: usize = 0;
    while i < names.len()
        invariant
            i <= names@.len(),
            key@ == name@,
            forall|j: int| 0 <= j < i ==> names@[j]@ != name@,
        decreases names@.len() - i,
    {
        if eq(chars_of(names[i].as_str()).as_slice(), key.as_slice()) {
            proof {
                assert(texts(names@)[i as int] == name@);
            }
            return true;
        }
        i = i + 1;
    }
    proof {
        if texts(names@).contains(name@) {
            let j = choose|j: int| 0 <= j < texts(names@).len() && texts(names@)[j] == name@;
            assert(names@[j]@ == name@);
        }
    }
    false
}

/// Scrubs a response body (see `scrub`).
pub fn scrub_json(v: Json, redact: &Vec<String>, remove: &Vec<String>, rv: &String) -> (r: Json)
    ensures
        jv(r) == scrub(jv(v), texts(redact@), texts(remove@), rv@),
    decreases v,
{
    let ghost v0 = v;
    let ghost rd = texts(redact@);
    let ghost rm = texts(remove@);
    match v {
        Json::Array(xs) => {
            let ghost xs0 = xs;
            let len0 = xs.len();
            let ghost n = xs0@.len();
            let mut xs = xs;
            let mut out: Vec<Json> = Vec::new();
            let mut i: usize = 0;
            while xs.len() > 0
                invariant
                    v0 == v,
                    v0 == Json::Array(xs0),
                    n == xs0@.len(),
                    n == len0,
                    i + xs@.len() == n,
                    xs@ == xs0@.subrange(i as int, n as int),
                    out@.len() == i,
                    rd == texts(redact@),
                    rm == texts(remove@),
                    forall|k: int| 0 <= k < i ==> jv(#[trigger] out@[k]) == scrub(jv(xs0@[k]), rd, rm, rv@),
                decreases xs@.len(),
            {
                let x = xs.remove(0);
                proof {
                    assert(x == xs0@[i as int]);
                    assert(decreases_to!(v0 => v0->Array_0));
                    assert(decreases_to!(v0->Array_0 => v0->Array_0@));
                    assert(decreases_to!(v0->Array_0@ => v0->Array_0@[i as int]));
                    assert(decreases_to!(v => x));
                }
                let y = scrub_json(x, redact, remove, rv);
                out.push(y);
                i = i + 1;
            }
            let r = Json::Array(out);
            proof {
                let lhs = jv(r);
                let rhs = scrub(jv(v0), rd, rm, rv@);
                assert(lhs->Array_0 =~= rhs->Array_0) by {
                    assert forall|k: int| 0 <= k < n implies lhs->Array_0[k] == rhs->Array_0[k] by {
                        assert(jv(v0)->Array_0[k] == jv(xs0@[k]));
                    }
                }
            }
            r
        },
        Json::Object(ms) => {
            let ghost ms0 = ms;
            let len0 = ms.len();
            let ghost n = ms0@.len();
            let ghost full = scrub_members(jv(v0)->Object_0, rd, rm, rv@);
            let mut ms = ms;
            let mut out: Vec<(String, Json)> = Vec::new();
            let ghost mut ov: Seq<(Seq<char>, JsonV)> = Seq::empty();
            let mut i: usize = 0;
            while ms.len() > 0
                invariant
                    v0 == v,
                    v0 == Json::Object(ms0),
                    n == ms0@.len(),
                    n == len0,
                    i + ms@.len() == n,
                    ms@ == ms0@.subrange(i as int, n as int),
                    rd == texts(redact@),
                    rm == texts(remove@),
                    full.len() == n,
                    jv(v0)->Object_0.len() == n,
                    full == scrub_members(jv(v0)->Object_0, rd, rm, rv@),
                    ov == full.subrange(0, i as int).filter(kept_by(rm)),
                    out@.len() == ov.len(),
                    forall|k: int| 0 <= k < out@.len() ==> (#[trigger] out@[k]).0@ == ov[k].0 && jv(out@[k].1) == ov[k].1,
                decreases ms@.len(),
            {
                let (name, val) = ms.remove(0);
                proof {
                    assert((name, val) == ms0@[i as int]);
                    assert(jv(v0)->Object_0[i as int] == (name@, jv(val)));
                    reveal_with_fuel(Seq::filter, 1);
                    assert(full.subrange(0, i + 1).drop_last() =~= full.subrange(0, i as int));
                    assert(full.subrange(0, i + 1).last() == full[i as int]);
                }
                if listed(remove, name.as_str()) {
                    proof {
                        assert(!kept_by(rm)(full[i as int]));
                        assert(ov == full.subrange(0, i + 1).filter(kept_by(rm)));
                    }
                } else if listed(redact, name.as_str()) {
                    let text_copy = string_of(chars_of(rv.as_str()).as_slice());
                    out.push((name, Json::Str(text_copy)));
                    proof {
                        assert(full[i as int] == (name@, JsonV::Str(rv@)));
                        ov = ov.push(full[i as int]);
                        assert(ov == full.subrange(0, i + 1).filter(kept_by(rm)));
                    }
                } else {
                    proof {
                        assert(decreases_to!(v0 => v0->Object_0));
                        assert(decreases_to!(v0->Object_0 => v0->Object_0@));
                        assert(decreases_to!(v0->Object_0@ => v0->Object_0@[i as int]));
                        assert(decreases_to!(v0->Object_0@[i as int] => v0->Object_0@[i as int].1));
                        assert(decreases_to!(v => val));
                    }
                    let y = scrub_json(val, redact, remove, rv);
                    proof {
                        assert(full[i as int] == (name@, jv(y)));
                        ov = ov.push(full[i as int]);
                        assert(ov == full.subrange(0, i + 1).filter(kept_by(rm)));
                    }
                    out.push((name, y));
                }
                i = i + 1;
            }
            let r = Json::Object(out);
            proof {
                assert(full.subrange(0, n as int) =~= full);
                let rhs = scrub(jv(v0), rd, rm, rv@);
                assert(rhs->Object_0 == full.filter(kept_by(rm)));
                assert(jv(r)->Object_0 =~= ov);
            }
            r
        },
        Json::Null => Json::Null,
        Json::Bool(b) => Json::Bool(b),
        Json::Number(s) => Json::Number(s),
        Json::Str(s) => Json::Str(s),
    }
}

/// The members of an object, as viewed.
pub open spec fn mv(ms: Vec<(String, Json)>) -> Seq<(Seq<char>, JsonV)> {
    jv(Json::Object(ms))->Object_0
}

/// The position of the last member with this name.
pub open spec fn find_member(ms: Seq<(Seq<char>, JsonV)>, k: Seq<char>) -> Option<int>
    decreases ms.len(),
{
    if ms.len() == 0 {
        None
    } else if ms.last().0 == k {
        Some(ms.len() - 1)
    } else {
        find_member(ms.drop_last(), k)
    }
}

/// The members with the one named `k` taken out, if there is one.
pub open spec fn drop_member(ms: Seq<(Seq<char>, JsonV)>, k: Seq<char>) -> Seq<(Seq<char>, JsonV)> {
    match find_member(ms, k) {
        Some(i) => ms.remove(i),
        None => ms,
    }
}

/// The members with `k` set to `v`: its value replaced where it is, or the
/// member added at the end.
pub open spec fn put_member(ms: Seq<(Seq<char>, JsonV)>, k: Seq<char>, v: JsonV) -> Seq<(Seq<char>, JsonV)> {
    match find_member(ms, k) {
        Some(i) => ms.update(i, (k, v)),
        None => ms.push((k, v)),
    }
}

/// The removals, in order.
pub open spec fn remove_all(ms: Seq<(Seq<char>, JsonV)>, names: Seq<Seq<char>>) -> Seq<(Seq<char>, JsonV)>
    decreases names.len(),
{
    if names.len() == 0 {
        ms
    } else {
        drop_member(remove_all(ms, names.drop_last()), names.last())
    }
}

/// The additions, in order.
pub open spec fn add_all(ms: Seq<(Seq<char>, JsonV)>, adds: Seq<(Seq<char>, JsonV)>) -> Seq<(Seq<char>, JsonV)>
    decreases adds.len(),
{
    if adds.len() == 0 {
        ms
    } else {
        let a = adds.last();
        put_member(add_all(ms, adds.drop_last()), a.0, a.1)
    }
}

/// A member renamed, if there is one by the old name: taken out, then set
/// under the new name.
pub open spec fn rename_member(ms: Seq<(Seq<char>, JsonV)>, from: Seq<char>, to: Seq<char>) -> Seq<(Seq<char>, JsonV)> {
    match find_member(ms, from) {
        Some(i) => put_member(ms.remove(i), to, ms[i].1),
        None => ms,
    }
}

/// The renamings, in order.
pub open spec fn rename_all(ms: Seq<(Seq<char>, JsonV)>, rs: Seq<(Seq<char>, Seq<char>)>) -> Seq<(Seq<char>, JsonV)>
    decreases rs.len(),
{
    if rs.len() == 0 {
        ms
    } else {
        rename_member(rename_all(ms, rs.drop_last()), rs.last().0, rs.last().1)
    }
}

/// A request body rewritten: when it is an object, the fields in `remove`
/// are taken out, then those of `adds` set, then those of `renames` moved
/// to their new names, each list in order; any other body is kept.
pub open spec fn rewrite_request(
    v: JsonV,
    remove: Seq<Seq<char>>,
    adds: Seq<(Seq<char>, JsonV)>,
    renames: Seq<(Seq<char>, Seq<char>)>,
) -> JsonV {
    match v {
        JsonV::Object(ms) => JsonV::Object(rename_all(add_all(remove_all(ms, remove), adds), renames)),
        _ => v,
    }
}

/// The pairs of texts of a list of pairs.
pub open spec fn text_pairs(v: Seq<(String, String)>) -> Seq<(Seq<char>, Seq<char>)> {
    v.map_values(|p: (String, String)| (p.0@, p.1@))
}

fn find_name(ms: &Vec<(String, Json)>, k: &str) -> (r: Option<usize>)
    ensures
        match r {
            Some(i) => find_member(mv(*ms), k@) == Some(i as int) && i < ms@.len(),
            None => find_member(mv(*ms), k@) is None,
        },
{
    let key = chars_of(k);
    let mut found: Option<usize> = None;
    let mut i: usize = 0;
    while i < ms.len()
        invariant
            i <= ms@.len(),
            key@ == k@,
            mv(*ms).len() == ms@.len(),
            match found {
                Some(j) => find_member(mv(*ms).subrange(0, i as int), k@) == Some(j as int) && j < i,
                None => find_member(mv(*ms).subrange(0, i as int), k@) is None,
            },
        decreases ms@.len() - i,
    {
        proof {
            assert(mv(*ms).subrange(0, i + 1).drop_last() =~= mv(*ms).subrange(0, i as int));
            assert(mv(*ms)[i as int].0 == ms@[i as int].0@);
        }
        if eq(chars_of(ms[i].0.as_str()).as_slice(), key.as_slice()) {
            found = Some(i);
        }
        i = i + 1;
    }
    proof {
        assert(mv(*ms).subrange(0, ms@.len() as int) =~= mv(*ms));
    }
    found
}

proof fn lemma_find_in_range(ms: Seq<(Seq<char>, JsonV)>, k: Seq<char>)
    ensures
        find_member(ms, k) matches Some(i) ==> 0 <= i < ms.len() && ms[i].0 == k,
    decreases ms.len(),
{
    if ms.len() > 0 {
        lemma_find_in_range(ms.drop_last(), k);
    }
}

fn take_member(ms: &mut Vec<(String, Json)>, k: &str) -> (r: Option<Json>)
    ensures
        mv(*final(ms)) == drop_member(mv(*old(ms)), k@),
        match find_member(mv(*old(ms)), k@) {
            Some(i) => r matches Some(v) && jv(v) == mv(*old(ms))[i].1,
            None => r is None,
        },
{
    match find_name(ms, k) {
        None => None,
        Some(i) => {
            let ghost before = mv(*ms);
            let (_, v) = ms.remove(i);
            proof {
                assert(mv(*ms) =~= before.remove(i as int));
            }
            Some(v)
        },
    }
}

fn put_json(ms: &mut Vec<(String, Json)>, k: String, v: Json)
    ensures
        mv(*final(ms)) == put_member(mv(*old(ms)), k@, jv(v)),
{
    let ghost before = mv(*ms);
    let ghost kv = k@;
    let ghost vv = jv(v);
    match find_name(ms, k.as_str()) {
        Some(i) => {
            ms.set(i, (k, v));
            proof {
                assert(mv(*ms) =~= before.update(i as int, (kv, vv)));
            }
        },
        None => {
            ms.push((k, v));
            proof {
                assert(mv(*ms) =~= before.push((kv, vv)));
            }
        },
    }
}

/// Rewrites a request body (see `rewrite_request`).
pub fn rewrite_request_json(v: Json, remove: &Vec<String>, adds: Vec<(String, Json)>, renames: &Vec<(String, String)>) -> (r: Json)
    ensures
        jv(r) == rewrite_request(jv(v), texts(remove@), mv(adds), text_pairs(renames@)),
{
    let ghost v0 = v;
    match v {
        Json::Object(ms) => {
            let mut ms = ms;
            let ghost m0 = mv(ms);
            let mut i: usize = 0;
            while i < remove.len()
                invariant
                    i <= remove@.len(),
                    mv(ms) == remove_all(m0, texts(remove@).subrange(0, i as int)),
                decreases remove@.len() - i,
            {
                proof {
                    assert(texts(remove@).subrange(0, i + 1).drop_last() =~= texts(remove@).subrange(0, i as int));
                }
                let _ = take_member(&mut ms, remove[i].as_str());
                i = i + 1;
            }
            proof {
                assert(texts(remove@).subrange(0, remove@.len() as int) =~= texts(remove@));
            }
            let ghost m1 = mv(ms);
            let ghost av = mv(adds);
            let n = adds.len();
            let mut rest = adds;
            let mut j: usize = 0;
            while j < n
                invariant
                    j <= n,
                    n == av.len(),
                    rest@.len() == n - j,
                    forall|k: int| 0 <= k < rest@.len() ==> (#[trigger] rest@[k]).0@ == av[j + k].0 && jv(rest@[k].1) == av[j + k].1,
                    mv(ms) == add_all(m1, av.subrange(0, j as int)),
                decreases n - j,
            {
                proof {
                    assert(av.subrange(0, j + 1).drop_last() =~= av.subrange(0, j as int));
                }
                let (k, val) = rest.remove(0);
                put_json(&mut ms, k, val);
                j = j + 1;
            }
            proof {
                assert(av.subrange(0, n as int) =~= av);
            }
            let ghost m2 = mv(ms);
            let mut q: usize = 0;
            while q < renames.len()
                invariant
                    q <= renames@.len(),
                    mv(ms) == rename_all(m2, text_pairs(renames@).subrange(0, q as int)),
                decreases renames@.len() - q,
            {
                proof {
                    assert(text_pairs(renames@).subrange(0, q + 1).drop_last() =~= text_pairs(renames@).subrange(0, q as int));
                }
                let ghost before = mv(ms);
                proof {
                    lemma_find_in_range(before, renames@[q as int].0@);
                }
                match take_member(&mut ms, renames[q].0.as_str()) {
                    Some(val) => {
                        let to = string_of(chars_of(renames[q].1.as_str()).as_slice());
                        put_json(&mut ms, to, val);
                    },
                    None => {},
                }
                q = q + 1;
            }
            proof {
                assert(text_pairs(renames@).subrange(0, renames@.len() as int) =~= text_pairs(renames@));
            }
            Json::Object(ms)
        },
        other => other,
    }
}

/// A copy of a document.
pub fn copy_json(j: &Json) -> (r: Json)
    ensures
        jv(r) == jv(*j),
    decreases j,
{
    match j {
        Json::Null => Json::Null,
        Json::Bool(b) => Json::Bool(*b),
        Json::Number(s) => Json::Number(string_of(chars_of(s.as_str()).as_slice())),
        Json::Str(s) => Json::Str(string_of(chars_of(s.as_str()).as_slice())),
        Json::Array(xs) => {
            let mut out: Vec<Json> = Vec::new();
            let mut i: usize = 0;
            while i < xs.len()
                invariant
                    *j == Json::Array(*xs),
                    i <= xs@.len(),
                    out@.len() == i,
                    forall|k: int| 0 <= k < i ==> jv(#[trigger] out@[k]) == jv(xs@[k]),
                decreases xs@.len() - i,
            {
                proof {
                    assert(decreases_to!(*j => j->Array_0));
                    assert(decreases_to!(j->Array_0 => j->Array_0@));
                    assert(decreases_to!(j->Array_0@ => j->Array_0@[i as int]));
                }
                out.push(copy_json(&xs[i]));
                i = i + 1;
            }
            let r = Json::Array(out);
            assert(jv(r)->Array_0 =~= jv(*j)->Array_0);
            r
        },
        Json::Object(ms) => {
            let mut out: Vec<(String, Json)> = Vec::new();
            let mut i: usize = 0;
            while i < ms.len()
                invariant
                    *j == Json::Object(*ms),
                    i <= ms@.len(),
                    out@.len() == i,
                    forall|k: int| 0 <= k < i ==> (#[trigger] out@[k]).0@ == ms@[k].0@ && jv(out@[k].1) == jv(ms@[k].1),
                decreases ms@.len() - i,
            {
                proof {
                    assert(decreases_to!(*j => j->Object_0));
                    assert(decreases_to!(j->Object_0 => j->Object_0@));
                    assert(decreases_to!(j->Object_0@ => j->Object_0@[i as int]));
                    assert(decreases_to!(j->Object_0@[i as int] => j->Object_0@[i as int].1));
                }
                let v = copy_json(&ms[i].1);
                out.push((string_of(chars_of(ms[i].0.as_str()).as_slice()), v));
                i = i + 1;
            }
            let r = Json::Object(out);
            assert(jv(r)->Object_0 =~= jv(*j)->Object_0);
            r
        },
    }
}

/// Body rewriting of a service: fields removed, added or renamed at the top
/// of a request body; fields redacted or removed at every depth of a
/// response body.
pub struct BodyTransformConfig {
    pub remove_fields: Vec<String>,
    pub add_fields: Vec<(String, Json)>,
    pub rename_fields: Vec<(String, String)>,
    pub redact_fields: Vec<String>,
    pub remove_response_fields: Vec<String>,
    pub redact_value: String,
}

impl BodyTransformConfig {
    /// The rewritten request body; `None` when the configuration changes
    /// nothing in requests.
    pub fn transform_request_body(&self, body: Json) -> (r: Option<Json>)
        ensures
            (self.remove_fields@.len() == 0 && self.add_fields@.len() == 0 && self.rename_fields@.len() == 0) ==> r is None,
            !(self.remove_fields@.len() == 0 && self.add_fields@.len() == 0 && self.rename_fields@.len() == 0) ==> (r matches Some(
                b,
            ) && jv(b) == rewrite_request(
                jv(body),
                texts(self.remove_fields@),
                mv(self.add_fields),
                text_pairs(self.rename_fields@),
            )),
    {
        if self.remove_fields.len() == 0 && self.add_fields.len() == 0 && self.rename_fields.len() == 0 {
            return None;
        }
        let mut adds: Vec<(String, Json)> = Vec::new();
        let mut i: usize = 0;
        while i < self.add_fields.len()
            invariant
                i <= self.add_fields@.len(),
                adds@.len() == i,
                forall|k: int| 0 <= k < i ==> (#[trigger] adds@[k]).0@ == self.add_fields@[k].0@ && jv(adds@[k].1) == jv(
                    self.add_fields@[k].1,
                ),
            decreases self.add_fields@.len() - i,
        {
            let v = copy_json(&self.add_fields[i].1);
            adds.push((string_of(chars_of(self.add_fields[i].0.as_str()).as_slice()), v));
            i = i + 1;
        }
        assert(mv(adds) =~= mv(self.add_fields));
        Some(rewrite_request_json(body, &self.remove_fields, adds, &self.rename_fields))
    }

    /// The scrubbed response body; `None` when the configuration changes
    /// nothing in responses.
    pub fn transform_response_body(&self, body: Json) -> (r: Option<Json>)
        ensures
            (self.redact_fields@.len() == 0 && self.remove_response_fields@.len() == 0) ==> r is None,
            !(self.redact_fields@.len() == 0 && self.remove_response_fields@.len() == 0) ==> (r matches Some(b) && jv(b) == scrub(
                jv(body),
                texts(self.redact_fields@),
                texts(self.remove_response_fields@),
                self.redact_value@,
            )),
    {
        if self.redact_fields.len() == 0 && self.remove_response_fields.len() == 0 {
            return None;
        }
        Some(scrub_json(body, &self.redact_fields, &self.remove_response_fields, &self.redact_value))
    }
}

} // verus!
