//! Per-service header rewriting: named request headers are removed, then
//! configured ones are set; configured response headers are added.
use vstd::prelude::*;
use crate::text::{chars_of, string_of};
use crate::config::TransformConfig;
use crate::gateway::proxy::{pairs, map_set, distinct_names, header_set};

verus! {

/// A token character of a header name (RFC 9110 `tchar`).
pub open spec fn tchar(c: char) -> bool {
    ||| ('0' <= c <= '9') || ('a' <= c <= 'z') || ('A' <= c <= 'Z')
    ||| c == '!' || c == '#' || c == '$' || c == '%' || c == '&' || c == '\'' || c == '*' || c == '+'
    ||| c == '-' || c == '.' || c == '^' || c == '_' || c == '`' || c == '|' || c == '~'
}

/// An ASCII upper-case letter lowered; any other character unchanged.
pub open spec fn lower_ascii(c: char) -> char {
    if 'A' <= c <= 'Z' {
        ((c as u32) + 32) as char
    } else {
        c
    }
}

/// What `http::HeaderName::from_bytes` makes of a name: a name of 1 to
/// 65535 token characters, lower-cased; nothing for any other name.
pub open spec fn header_name_of(key: Seq<char>) -> Option<Seq<char>> {
    if 1 <= key.len() <= 65535 && forall|i: int| 0 <= i < key.len() ==> tchar(#[trigger] key[i]) {
        Some(key.map_values(|c: char| lower_ascii(c)))
    } else {
        None
    }
}

/// A character `http::HeaderValue::from_str` takes: its UTF-8 bytes are all
/// at least 32 and not 127, or it is a tab (bytes of non-ASCII characters
/// are all 128 or more).
pub open spec fn header_value_char(c: char) -> bool {
    ((c as u32) >= 32 && (c as u32) != 127) || c == '\t'
}

/// Whether `http::HeaderValue::from_str` accepts a value: every character
/// passes `header_value_char`.
pub open spec fn header_value_valid(v: Seq<char>) -> bool {
    forall|i: int| 0 <= i < v.len() ==> header_value_char(#[trigger] v[i])
}

/// `HeaderName::from_bytes` on the name's bytes, giving the normalized name:
/// it maps each byte through its `HEADER_CHARS` table (token characters,
/// upper-case letters lowered, everything else refused) and refuses an empty
/// name or one over `MAX_HEADER_NAME_LEN` (65535) bytes. A name with a
/// non-ASCII character holds a byte of 128 or more, which the table refuses,
/// so counting characters in place of bytes changes nothing.
#[verifier::external_body]
fn parse_header_name(key: &str) -> (r: Option<String>)
    ensures
        match r {
            Some(n) => header_name_of(key@) == Some(n@),
            None => header_name_of(key@) is None,
        },
{
    match reqwest::header::HeaderName::from_bytes(key.as_bytes()) {
        Ok(n) => Some(n.as_str().to_string()),
        Err(_) => None,
    }
}

/// Whether `HeaderValue::from_str` accepts the value: it checks every byte
/// of the value with `is_valid` (`b >= 32 && b != 127 || b == b'\t'`).
#[verifier::external_body]
fn header_value_ok(v: &str) -> (r: bool)
    ensures
        r == header_value_valid(v@),
{
    reqwest::header::HeaderValue::from_str(v).is_ok()
}

/// A copy of a list of pairs.
pub fn copy_pairs(v: &Vec<(String, String)>) -> (r: Vec<(String, String)>)
    ensures
        r@ == v@,
{
    let mut r: Vec<(String, String)> = Vec::new();
    let mut i: usize = 0;
    while i < v.len()
        invariant
            i <= v@.len(),
            r@ == v@.subrange(0, i as int),
        decreases v@.len() - i,
    {
        r.push((v[i].0.clone(), v[i].1.clone()));
        assert(r@ =~= v@.subrange(0, i + 1));
        i = i + 1;
    }
    assert(v@.subrange(0, v@.len() as int) =~= v@);
    r
}

/// A copy of a list of strings.
pub fn copy_strings(v: &Vec<String>) -> (r: Vec<String>)
    ensures
        r@ == v@,
{
    let mut r: Vec<String> = Vec::new();
    let mut i: usize = 0;
    while i < v.len()
        invariant
            i <= v@.len(),
            r@ == v@.subrange(0, i as int),
        decreases v@.len() - i,
    {
        r.push(v[i].clone());
        assert(r@ =~= v@.subrange(0, i + 1));
        i = i + 1;
    }
    assert(v@.subrange(0, v@.len() as int) =~= v@);
    r
}

/// Header rewriting rules.
pub struct TransformRules {
    pub add_request_headers: Vec<(String, String)>,
    pub remove_request_headers: Vec<String>,
    pub add_response_headers: Vec<(String, String)>,
    pub remove_response_headers: Vec<String>,
}

/// Removes a name from a header map.
pub open spec fn map_remove(m: Seq<(Seq<char>, Seq<char>)>, name: Seq<char>) -> Seq<(Seq<char>, Seq<char>)> {
    m.filter(|p: (Seq<char>, Seq<char>)| p.0 != name)
}

/// The removals, in order; names that are not valid header names are skipped.
pub open spec fn apply_removals(m: Seq<(Seq<char>, Seq<char>)>, names: Seq<String>) -> Seq<(Seq<char>, Seq<char>)>
    decreases names.len(),
{
    if names.len() == 0 {
        m
    } else {
        let prev = apply_removals(m, names.drop_last());
        match header_name_of(names.last()@) {
            Some(n) => map_remove(prev, n),
            None => prev,
        }
    }
}

/// The additions, in order; pairs with an invalid name or value are skipped.
pub open spec fn apply_additions(m: Seq<(Seq<char>, Seq<char>)>, adds: Seq<(String, String)>) -> Seq<(Seq<char>, Seq<char>)>
    decreases adds.len(),
{
    if adds.len() == 0 {
        m
    } else {
        let prev = apply_additions(m, adds.drop_last());
        let (k, v) = adds.last();
        match header_name_of(k@) {
            Some(n) => if header_value_valid(v@) {
                map_set(prev, n, v@)
            } else {
                prev
            },
            None => prev,
        }
    }
}

fn remove_name(m: &mut Vec<(String, String)>, name: &str)
    requires
        distinct_names(pairs(old(m)@)),
    ensures
        distinct_names(pairs(final(m)@)),
        pairs(final(m)@) == map_remove(pairs(old(m)@), name@),
{
    let ghost pm = pairs(m@);
    let mut out: Vec<(String, String)> = Vec::new();
    let mut i: usize = 0;
    let n = chars_of(name);
    while i < m.len()
        invariant
            i <= m@.len(),
            pm == pairs(m@),
            n@ == name@,
            distinct_names(pm),
            pairs(out@) == map_remove(pm.subrange(0, i as int), name@),
            forall|a: int| 0 <= a < out@.len() ==> exists|b: int| 0 <= b < i && #[trigger] pairs(out@)[a] == pm[b],
            distinct_names(pairs(out@)),
        decreases m@.len() - i,
    {
        proof {
            assert(pm.subrange(0, i + 1).drop_last() =~= pm.subrange(0, i as int));
            reveal_with_fuel(Seq::filter, 1);
        }
        let k = chars_of(m[i].0.as_str());
        let ghost before = pairs(out@);
        if !crate::text::eq(k.as_slice(), n.as_slice()) {
            out.push((m[i].0.clone(), m[i].1.clone()));
            proof {
                assert(pairs(out@) =~= before.push(pm[i as int]));
                assert forall|a: int, b: int| 0 <= a < pairs(out@).len() && 0 <= b < pairs(out@).len() && a != b
                    implies #[trigger] pairs(out@)[a].0 != #[trigger] pairs(out@)[b].0 by {
                    if a == before.len() {
                        let bb = choose|c: int| 0 <= c < i && #[trigger] before[b] == pm[c];
                        assert(pm[bb].0 != pm[i as int].0);
                    } else if b == before.len() {
                        let aa = choose|c: int| 0 <= c < i && #[trigger] before[a] == pm[c];
                        assert(pm[aa].0 != pm[i as int].0);
                    }
                }
                assert forall|a: int| 0 <= a < out@.len() implies exists|b: int| 0 <= b < i + 1 && #[trigger] pairs(out@)[a] == pm[b] by {
                    if a == before.len() {
                        assert(pairs(out@)[a] == pm[i as int]);
                    } else {
                        let bb = choose|c: int| 0 <= c < i && #[trigger] before[a] == pm[c];
                        assert(pairs(out@)[a] == pm[bb]);
                    }
                }
            }
        } else {
            proof {
                assert forall|a: int| 0 <= a < out@.len() implies exists|b: int| 0 <= b < i + 1 && #[trigger] pairs(out@)[a] == pm[b] by {
                    let bb = choose|c: int| 0 <= c < i && #[trigger] before[a] == pm[c];
                    assert(pairs(out@)[a] == pm[bb]);
                }
            }
        }
        i = i + 1;
    }
    proof {
        assert(pm.subrange(0, pm.len() as int) =~= pm);
    }
    *m = out;
}

impl TransformRules {
    /// The rules of a service's transform section.
    pub fn from_config(config: &TransformConfig) -> (r: Self)
        ensures
            r.add_request_headers@ == config.add_request_headers@,
            r.remove_request_headers@ == config.remove_request_headers@,
            r.add_response_headers@ == config.add_response_headers@,
            r.remove_response_headers@ == config.remove_response_headers@,
    {
        TransformRules {
            add_request_headers: copy_pairs(&config.add_request_headers),
            remove_request_headers: copy_strings(&config.remove_request_headers),
            add_response_headers: copy_pairs(&config.add_response_headers),
            remove_response_headers: copy_strings(&config.remove_response_headers),
        }
    }

    /// Rewrites the request headers bound upstream (a header map with
    /// distinct names): the removals first, then the additions.
    pub fn apply_request_headers(&self, headers: &mut Vec<(String, String)>)
        requires
            distinct_names(pairs(old(headers)@)),
        ensures
            distinct_names(pairs(final(headers)@)),
            pairs(final(headers)@) == apply_additions(
                apply_removals(pairs(old(headers)@), self.remove_request_headers@),
                self.add_request_headers@,
            ),
    {
        let mut i: usize = 0;
        while i < self.remove_request_headers.len()
            invariant
                i <= self.remove_request_headers@.len(),
                distinct_names(pairs(headers@)),
                pairs(headers@) == apply_removals(pairs(old(headers)@), self.remove_request_headers@.subrange(0, i as int)),
            decreases self.remove_request_headers@.len() - i,
        {
            proof {
                assert(self.remove_request_headers@.subrange(0, i + 1).drop_last() =~= self.remove_request_headers@.subrange(0, i as int));
            }
            match parse_header_name(self.remove_request_headers[i].as_str()) {
                Some(n) => remove_name(headers, n.as_str()),
                None => {},
            }
            i = i + 1;
        }
        proof {
            assert(self.remove_request_headers@.subrange(0, self.remove_request_headers@.len() as int) =~= self.remove_request_headers@);
        }
        let ghost removed = pairs(headers@);
        let mut j: usize = 0;
        while j < self.add_request_headers.len()
            invariant
                j <= self.add_request_headers@.len(),
                distinct_names(pairs(headers@)),
                pairs(headers@) == apply_additions(removed, self.add_request_headers@.subrange(0, j as int)),
            decreases self.add_request_headers@.len() - j,
        {
            proof {
                assert(self.add_request_headers@.subrange(0, j + 1).drop_last() =~= self.add_request_headers@.subrange(0, j as int));
            }
            match parse_header_name(self.add_request_headers[j].0.as_str()) {
                Some(n) => {
                    if header_value_ok(self.add_request_headers[j].1.as_str()) {
                        header_set(headers, chars_of(n.as_str()), chars_of(self.add_request_headers[j].1.as_str()));
                    }
                },
                None => {},
            }
            j = j + 1;
        }
        proof {
            assert(self.add_request_headers@.subrange(0, self.add_request_headers@.len() as int) =~= self.add_request_headers@);
        }
    }

    /// The headers added to responses (removals do not apply to responses).
    pub fn response_headers(&self) -> (r: Vec<(String, String)>)
        ensures
            r@ == self.add_response_headers@,
    {
        copy_pairs(&self.add_response_headers)
    }
}

} // verus!
