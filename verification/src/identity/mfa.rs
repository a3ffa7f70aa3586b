//! RFC 6238 TOTP (HMAC-SHA1) second factor, with RFC 4648 base32 secrets.
use vstd::prelude::*;
use hmac::{Hmac, Mac};
use sha1::Sha1;
use subtle::ConstantTimeEq;
use crate::text::{upper, is_ws};
use vstd::string::StringSliceAdditionalSpecFns;

verus! {

/// Number of digits in a code.
pub const TOTP_DIGITS: u32 = 6;

/// Length of a time step, in seconds.
pub const TOTP_PERIOD: u64 = 30;

/// The RFC 4648 base32 alphabet.
pub open spec fn alphabet(v: nat) -> char {
    if v < 26 {
        ((v + 65) as u32) as char
    } else {
        ((v - 26 + 50) as u32) as char
    }
}

/// 2 to the power `s`, for `s` below 8.
pub open spec fn p2(s: int) -> nat {
    if s <= 0 {
        1
    } else if s == 1 {
        2
    } else if s == 2 {
        4
    } else if s == 3 {
        8
    } else if s == 4 {
        16
    } else if s == 5 {
        32
    } else if s == 6 {
        64
    } else {
        128
    }
}

/// Bit `k` of a byte string, most significant bit of each byte first; zero
/// past the end.
pub open spec fn bit(d: Seq<u8>, k: int) -> nat {
    if 0 <= k < 8 * d.len() {
        ((d[k / 8] as nat) / p2(7 - k % 8)) % 2
    } else {
        0
    }
}

/// The five-bit group `i` of a byte string, zero-padded at the end.
pub open spec fn group5(d: Seq<u8>, i: int) -> nat {
    16 * bit(d, 5 * i) + 8 * bit(d, 5 * i + 1) + 4 * bit(d, 5 * i + 2) + 2 * bit(d, 5 * i + 3) + bit(
        d,
        5 * i + 4,
    )
}

/// Number of base32 characters for `n` bytes, without padding.
pub open spec fn encoded_len(n: nat) -> nat {
    (8 * n + 4) / 5
}

/// The base32 text of a byte string (RFC 4648, no padding).
pub open spec fn base32_of(d: Seq<u8>) -> Seq<char> {
    Seq::new(encoded_len(d.len()), |i: int| alphabet(group5(d, i)))
}

/// The five-bit value of one base32 character, case-insensitive.
pub open spec fn b32_value(c: char) -> Option<nat> {
    let u = upper(c);
    if 'A' <= u && u <= 'Z' {
        Some(((u as nat) - 65) as nat)
    } else if '2' <= c && c <= '7' {
        Some(((c as nat) - 50 + 26) as nat)
    } else {
        None
    }
}

/// The characters that decoding reads: padding and whitespace are skipped.
pub open spec fn significant(s: Seq<char>) -> Seq<char> {
    s.filter(keeps())
}

/// The characters that decoding reads.
pub open spec fn keeps() -> spec_fn(char) -> bool {
    |c: char| c != '=' && !is_ws(c)
}

proof fn lemma_significant_push(s: Seq<char>, c: char)
    ensures
        significant(s.push(c)) == if keeps()(c) {
            significant(s).push(c)
        } else {
            significant(s)
        },
{
    reveal_with_fuel(Seq::filter, 1);
    assert(s.push(c).drop_last() =~= s);
}

/// Bit `k` of a sequence of five-bit values, most significant first.
pub open spec fn vbit(v: Seq<nat>, k: int) -> nat {
    if 0 <= k < 5 * v.len() {
        (v[k / 5] / p2(4 - k % 5)) % 2
    } else {
        0
    }
}

/// Byte `i` assembled from eight bits of a sequence of five-bit values.
pub open spec fn vbyte(v: Seq<nat>, i: int) -> nat {
    128 * vbit(v, 8 * i) + 64 * vbit(v, 8 * i + 1) + 32 * vbit(v, 8 * i + 2) + 16 * vbit(v, 8 * i + 3)
        + 8 * vbit(v, 8 * i + 4) + 4 * vbit(v, 8 * i + 5) + 2 * vbit(v, 8 * i + 6) + vbit(
        v,
        8 * i + 7,
    )
}

/// The bytes whose bits are the given five-bit values; trailing bits that do
/// not fill a byte are dropped.
pub open spec fn bytes_of_values(v: Seq<nat>) -> Seq<u8> {
    Seq::new((5 * v.len() / 8) as nat, |i: int| vbyte(v, i) as u8)
}

/// Base32 decoding (RFC 4648): `None` when a significant character is not in
/// the alphabet.
pub open spec fn base32_decoded(s: Seq<char>) -> Option<Seq<u8>> {
    let t = significant(s);
    if forall|i: int| 0 <= i < t.len() ==> #[trigger] b32_value(t[i]) is Some {
        Some(bytes_of_values(Seq::new(t.len(), |i: int| b32_value(t[i])->0)))
    } else {
        None
    }
}

fn divisor(s: usize) -> (r: u32)
    requires
        s < 8,
    ensures
        r == p2(s as int),
        r >= 1,
{
    if s == 0 {
        1
    } else if s == 1 {
        2
    } else if s == 2 {
        4
    } else if s == 3 {
        8
    } else if s == 4 {
        16
    } else if s == 5 {
        32
    } else if s == 6 {
        64
    } else {
        128
    }
}

fn bit_at(d: &[u8], k: u128) -> (r: u32)
    ensures
        r == bit(d@, k as int),
        r <= 1,
{
    if k / 8 < d.len() as u128 {
        let idx = (k / 8) as usize;
        (d[idx] as u32 / divisor((7 - k % 8) as usize)) % 2
    } else {
        0
    }
}

fn alphabet_char(v: u32) -> (c: char)
    requires
        v < 32,
    ensures
        c == alphabet(v as nat),
{
    if v < 26 {
        ((v + 65) as u8) as char
    } else {
        ((v - 26 + 50) as u8) as char
    }
}

/// Base32 encoding (RFC 4648, no padding).
pub fn base32_encode(data: &[u8]) -> (s: String)
    ensures
        s@ == base32_of(data@),
{
    let n: u128 = (8 * (data.len() as u128) + 4) / 5;
    assert(5 * n <= 8 * data@.len() + 4);
    let mut out: Vec<char> = Vec::new();
    let mut i: u128 = 0;
    while i < n
        invariant
            n == encoded_len(data@.len()),
            5 * n <= 8 * data@.len() + 4,
            data@.len() <= usize::MAX,
            i <= n,
            out@.len() == i,
            forall|j: int| 0 <= j < i ==> out@[j] == alphabet(group5(data@, j)),
        decreases n - i,
    {
        let p: u128 = 5 * i;
        let g = 16 * bit_at(data, p) + 8 * bit_at(data, p + 1) + 4 * bit_at(data, p + 2) + 2
            * bit_at(data, p + 3) + bit_at(data, p + 4);
        out.push(alphabet_char(g));
        i = i + 1;
    }
    assert(out@ =~= base32_of(data@));
    crate::text::string_of(out.as_slice())
}

fn b32_decode_char(c: char) -> (r: Option<u32>)
    ensures
        match r {
            Some(v) => b32_value(c) == Some(v as nat) && v < 32,
            None => b32_value(c) is None,
        },
{
    let u = crate::text::ascii_upper(c);
    if u >= 'A' && u <= 'Z' {
        Some((u as u32) - 65)
    } else if c >= '2' && c <= '7' {
        Some((c as u32) - 50 + 26)
    } else {
        None
    }
}

fn vbit_at(v: &Vec<u32>, k: u128) -> (r: u32)
    requires
        forall|i: int| 0 <= i < v@.len() ==> v@[i] < 32,
    ensures
        r == vbit(v@.map_values(|x: u32| x as nat), k as int),
        r <= 1,
{
    let ghost vv = v@.map_values(|x: u32| x as nat);
    if k / 5 < v.len() as u128 {
        let s = (4 - k % 5) as usize;
        let idx = (k / 5) as usize;
        assert(vv[idx as int] == v@[idx as int] as nat);
        (v[idx] / divisor(s)) % 2
    } else {
        0
    }
}

/// Base32 decoding (RFC 4648): padding and whitespace are skipped, letters
/// are read case-insensitively; `None` on any other character.
pub fn base32_decode(input: &str) -> (r: Option<Vec<u8>>)
    ensures
        match r {
            Some(b) => base32_decoded(input@) == Some(b@),
            None => base32_decoded(input@) is None,
        },
{
    let chars = crate::text::chars_of(input);
    let ghost t = significant(input@);
    let mut vals: Vec<u32> = Vec::new();
    let ghost mut kept: Seq<char> = Seq::empty();
    let mut i: usize = 0;
    while i < chars.len()
        invariant
            chars@ == input@,
            t == significant(input@),
            i <= chars@.len(),
            kept == significant(chars@.subrange(0, i as int)),
            vals@.len() == kept.len(),
            forall|j: int| 0 <= j < kept.len() ==> b32_value(#[trigger] kept[j]) == Some(
                vals@[j] as nat,
            ),
            forall|j: int| 0 <= j < vals@.len() ==> #[trigger] vals@[j] < 32,
        decreases chars@.len() - i,
    {
        let c = chars[i];
        proof {
            let pre = chars@.subrange(0, i as int);
            assert(chars@.subrange(0, i + 1) =~= pre.push(c));
            lemma_significant_push(pre, c);
        }
        if c != '=' && !crate::text::is_whitespace(c) {
            match b32_decode_char(c) {
                Some(v) => {
                    vals.push(v);
                    proof {
                        kept = kept.push(c);
                    }
                },
                None => {
                    proof {
                        let pre1 = chars@.subrange(0, i + 1);
                        let rest = chars@.subrange(i + 1, chars@.len() as int);
                        assert(chars@ =~= pre1 + rest);
                        Seq::filter_distributes_over_add(pre1, rest, keeps());
                        assert(significant(pre1) == kept.push(c));
                        assert(significant(chars@) == significant(pre1 + rest));
                        assert((pre1 + rest).filter(keeps()) == pre1.filter(keeps()) + rest.filter(keeps()));
                        assert(t == significant(chars@));
                        assert(t == kept.push(c) + significant(rest));
                        assert(t[kept.len() as int] == c);
                        assert(b32_value(t[kept.len() as int]) is None);
                    }
                    return None;
                },
            }
        }
        i = i + 1;
    }
    proof {
        assert(chars@.subrange(0, chars@.len() as int) =~= chars@);
        assert(kept == t);
    }
    let m = vals.len();
    let ghost vv = vals@.map_values(|x: u32| x as nat);
    proof {
        assert(vv =~= Seq::new(t.len(), |i: int| b32_value(t[i])->0));
    }
    let nbytes = (5 * (m as u128) / 8) as usize;
    let mut out: Vec<u8> = Vec::new();
    let mut k: usize = 0;
    while k < nbytes
        invariant
            m == vals@.len(),
            vv == vals@.map_values(|x: u32| x as nat),
            nbytes == 5 * m / 8,
            forall|j: int| 0 <= j < vals@.len() ==> #[trigger] vals@[j] < 32,
            k <= nbytes,
            out@.len() == k,
            forall|j: int| 0 <= j < k ==> out@[j] == vbyte(vv, j) as u8,
        decreases nbytes - k,
    {
        let p: u128 = 8 * (k as u128);
        let b = 128 * vbit_at(&vals, p) + 64 * vbit_at(&vals, p + 1) + 32 * vbit_at(&vals, p + 2)
            + 16 * vbit_at(&vals, p + 3) + 8 * vbit_at(&vals, p + 4) + 4 * vbit_at(&vals, p + 5)
            + 2 * vbit_at(&vals, p + 6) + vbit_at(&vals, p + 7);
        out.push(b as u8);
        k = k + 1;
    }
    assert(out@ =~= bytes_of_values(vv));
    Some(out)
}

proof fn lemma_alphabet_value(g: nat)
    requires
        g < 32,
    ensures
        b32_value(alphabet(g)) == Some(g),
        keeps()(alphabet(g)),
{
    let c = alphabet(g);
    if g < 26 {
        assert(c as nat == g + 65);
        assert(upper(c) == c);
    } else {
        assert(c as nat == g - 26 + 50);
        assert(upper(c) == c);
    }
}

proof fn lemma_keep_all(s: Seq<char>)
    requires
        forall|i: int| 0 <= i < s.len() ==> keeps()(#[trigger] s[i]),
    ensures
        significant(s) == s,
    decreases s.len(),
{
    if s.len() > 0 {
        lemma_keep_all(s.drop_last());
        lemma_significant_push(s.drop_last(), s.last());
        assert(s.drop_last().push(s.last()) =~= s);
    } else {
        reveal_with_fuel(Seq::filter, 1);
        assert(significant(s) =~= s);
    }
}

proof fn lemma_group_bits(b0: nat, b1: nat, b2: nat, b3: nat, b4: nat, j: int)
    requires
        b0 <= 1 && b1 <= 1 && b2 <= 1 && b3 <= 1 && b4 <= 1,
        0 <= j < 5,
    ensures
        ((16 * b0 + 8 * b1 + 4 * b2 + 2 * b3 + b4) / p2(4 - j)) % 2 == (if j == 0 {
            b0
        } else if j == 1 {
            b1
        } else if j == 2 {
            b2
        } else if j == 3 {
            b3
        } else {
            b4
        }),
{
    let g = 16 * b0 + 8 * b1 + 4 * b2 + 2 * b3 + b4;
    if j == 0 {
        assert(g / 16 == b0);
    } else if j == 1 {
        assert(g / 8 == 2 * b0 + b1);
    } else if j == 2 {
        assert(g / 4 == 4 * b0 + 2 * b1 + b2);
    } else if j == 3 {
        assert(g / 2 == 8 * b0 + 4 * b1 + 2 * b2 + b3);
    }
}

proof fn lemma_byte_bits(x: u8)
    ensures
        x as nat == 128 * ((x as nat / 128) % 2) + 64 * ((x as nat / 64) % 2) + 32 * ((x as nat / 32)
            % 2) + 16 * ((x as nat / 16) % 2) + 8 * ((x as nat / 8) % 2) + 4 * ((x as nat / 4) % 2)
            + 2 * ((x as nat / 2) % 2) + (x as nat % 2),
{
    assert(x == 128 * ((x / 128) % 2) + 64 * ((x / 64) % 2) + 32 * ((x / 32) % 2) + 16 * ((x / 16)
        % 2) + 8 * ((x / 8) % 2) + 4 * ((x / 4) % 2) + 2 * ((x / 2) % 2) + (x % 2)) by (bit_vector);
}

/// Round trip: decoding the base32 text of any byte string gives back exactly
/// that byte string.
pub proof fn law_base32_roundtrip(d: Seq<u8>)
    ensures
        base32_decoded(base32_of(d)) == Some(d),
{
    let e = base32_of(d);
    let m = encoded_len(d.len());
    assert forall|i: int| 0 <= i < e.len() implies keeps()(#[trigger] e[i])
        && b32_value(e[i]) == Some(group5(d, i)) by {
        lemma_alphabet_value(group5(d, i));
    }
    lemma_keep_all(e);
    let t = significant(e);
    assert(t == e);
    assert forall|i: int| 0 <= i < t.len() implies #[trigger] b32_value(t[i]) is Some by {
        lemma_alphabet_value(group5(d, i));
    }
    let v = Seq::new(t.len(), |i: int| b32_value(t[i])->0);
    assert forall|i: int| 0 <= i < v.len() implies #[trigger] v[i] == group5(d, i) by {
        lemma_alphabet_value(group5(d, i));
    }
    assert(5 * m / 8 == d.len());
    assert forall|k: int| 0 <= k < 8 * d.len() implies #[trigger] vbit(v, k) == bit(d, k) by {
        let i = k / 5;
        let j = k % 5;
        assert(5 * i + j == k);
        assert(i < v.len());
        lemma_group_bits(bit(d, 5 * i), bit(d, 5 * i + 1), bit(d, 5 * i + 2), bit(d, 5 * i + 3), bit(d, 5 * i + 4), j);
    }
    let out = bytes_of_values(v);
    assert forall|i: int| 0 <= i < d.len() implies #[trigger] out[i] == d[i] by {
        lemma_byte_bits(d[i]);
        assert forall|j: int| 0 <= j < 8 implies #[trigger] vbit(v, 8 * i + j) == ((d[i] as nat) / p2(7 - j)) % 2 by {
            assert((8 * i + j) / 8 == i);
            assert((8 * i + j) % 8 == j);
        }
        assert(vbit(v, 8 * i) == ((d[i] as nat) / 128) % 2);
        assert(vbit(v, 8 * i + 1) == ((d[i] as nat) / 64) % 2);
        assert(vbit(v, 8 * i + 2) == ((d[i] as nat) / 32) % 2);
        assert(vbit(v, 8 * i + 3) == ((d[i] as nat) / 16) % 2);
        assert(vbit(v, 8 * i + 4) == ((d[i] as nat) / 8) % 2);
        assert(vbit(v, 8 * i + 5) == ((d[i] as nat) / 4) % 2);
        assert(vbit(v, 8 * i + 6) == ((d[i] as nat) / 2) % 2);
        assert(vbit(v, 8 * i + 7) == ((d[i] as nat) / 1) % 2);
    }
    assert(out =~= d);
}

/// The HMAC-SHA1 tag of `msg` under `key`.
pub uninterp spec fn hmac_sha1_of(key: Seq<u8>, msg: Seq<u8>) -> Seq<u8>;

/// HMAC-SHA1 (`hmac::Hmac<sha1::Sha1>`): keys of any length are accepted and
/// the tag is the 20-byte SHA-1 output; the tag itself is named, not stated.
#[verifier::external_body]
fn hmac_sha1(key: &[u8], msg: &[u8]) -> (tag: Vec<u8>)
    ensures
        tag@ == hmac_sha1_of(key@, msg@),
        tag@.len() == 20,
{
    match <Hmac<Sha1> as Mac>::new_from_slice(key) {
        Ok(mut mac) => {
            mac.update(msg);
            mac.finalize().into_bytes().to_vec()
        },
        Err(_) => Vec::new(),
    }
}

/// Constant-time equality of two byte strings (`subtle::ConstantTimeEq` on
/// slices): true exactly when they have the same length and contents.
#[verifier::external_body]
fn ct_eq_bytes(a: &[u8], b: &[u8]) -> (r: bool)
    ensures
        r == (a@ == b@),
{
    a.ct_eq(b).into()
}

/// `n` bytes from the thread-local random generator.
fn random_bytes(n: usize) -> (r: Vec<u8>)
    ensures
        r@.len() == n,
{
    let mut r: Vec<u8> = Vec::new();
    let mut i: usize = 0;
    while i < n
        invariant
            i <= n,
            r@.len() == i,
        decreases n - i,
    {
        r.push(crate::crypto::random_byte());
        i = i + 1;
    }
    r
}

/// 256 to the power `k`.
pub open spec fn p256(k: nat) -> nat
    decreases k,
{
    if k == 0 {
        1
    } else {
        256 * p256((k - 1) as nat)
    }
}

/// The eight big-endian bytes of `x` (`u64::to_be_bytes`).
pub open spec fn be_bytes(x: u64) -> Seq<u8> {
    Seq::new(8, |j: int| ((x as nat / p256((7 - j) as nat)) % 256) as u8)
}

/// The 31-bit number that dynamic truncation (RFC 4226) reads from a tag.
pub open spec fn truncated(h: Seq<u8>) -> nat {
    let o = (h[h.len() - 1] % 16) as int;
    (h[o] % 128) as nat * 0x100_0000 + h[o + 1] as nat * 0x1_0000 + h[o + 2] as nat * 0x100
        + h[o + 3] as nat
}

/// Decimal digit `j` (from the left) of the six-digit zero-padded form of `n`.
pub open spec fn digit6(n: nat, j: int) -> u8 {
    (48 + (n / (if j == 0 {
        100000nat
    } else if j == 1 {
        10000
    } else if j == 2 {
        1000
    } else if j == 3 {
        100
    } else if j == 4 {
        10
    } else {
        1
    })) % 10) as u8
}

/// The six-digit code (as ASCII bytes) that a 20-byte tag gives.
pub open spec fn code_bytes(h: Seq<u8>) -> Seq<u8> {
    Seq::new(6, |j: int| digit6(truncated(h) % 1000000, j))
}

/// The code for `key` at time step `step`, as ASCII bytes.
pub open spec fn totp(key: Seq<u8>, step: u64) -> Seq<u8> {
    code_bytes(hmac_sha1_of(key, be_bytes(step)))
}

fn be_bytes_of(x: u64) -> (r: Vec<u8>)
    ensures
        r@ == be_bytes(x),
{
    let mut r: Vec<u8> = Vec::new();
    let mut div: u64 = 0x100_0000_0000_0000;
    let mut j: usize = 0;
    proof {
        reveal_with_fuel(p256, 8);
    }
    while j < 8
        invariant
            j <= 8,
            r@.len() == j,
            j < 8 ==> div as nat == p256((7 - j) as nat),
            forall|i: int| 0 <= i < j ==> r@[i] == ((x as nat / p256((7 - i) as nat)) % 256) as u8,
        decreases 8 - j,
    {
        proof {
            reveal_with_fuel(p256, 8);
        }
        r.push(((x / div) % 256) as u8);
        if j < 7 {
            div = div / 256;
        }
        j = j + 1;
    }
    assert(r@ =~= be_bytes(x));
    r
}

fn digit(n: u32, d: u32) -> (r: u8)
    requires
        d >= 1,
    ensures
        r == (48 + (n / d) % 10) as u8,
{
    (48 + (n / d) % 10) as u8
}

/// Dynamic truncation (RFC 4226, section 5.3) of a 20-byte HMAC-SHA1 tag:
/// the six ASCII digits of the code it gives, zero-padded.
pub fn code_from_tag(h: &[u8]) -> (r: Vec<u8>)
    requires
        h@.len() == 20,
    ensures
        r@ == code_bytes(h@),
{
    let o = (h[h.len() - 1] % 16) as usize;
    let bin: u32 = ((h[o] % 128) as u32) * 0x100_0000 + (h[o + 1] as u32) * 0x1_0000
        + (h[o + 2] as u32) * 0x100 + (h[o + 3] as u32);
    let code = bin % 1000000;
    let mut r: Vec<u8> = Vec::new();
    r.push(digit(code, 100000));
    r.push(digit(code, 10000));
    r.push(digit(code, 1000));
    r.push(digit(code, 100));
    r.push(digit(code, 10));
    r.push(digit(code, 1));
    assert(r@ =~= code_bytes(h@));
    r
}

/// The six ASCII digits of the code for `key` at time step `step`.
fn totp_bytes(key: &[u8], time_step: u64) -> (r: Vec<u8>)
    ensures
        r@ == totp(key@, time_step),
{
    let counter = be_bytes_of(time_step);
    let h = hmac_sha1(key, counter.as_slice());
    code_from_tag(h.as_slice())
}

/// RFC 6238 / RFC 4226 code generation: the six-digit code for `key` at
/// `time_step`, zero-padded.
pub fn generate_totp_code(key: &[u8], time_step: u64) -> (code: String)
    ensures
        code@ == totp(key@, time_step).map_values(|b: u8| b as char),
{
    let b = totp_bytes(key, time_step);
    let mut cs: Vec<char> = Vec::new();
    let mut i: usize = 0;
    while i < b.len()
        invariant
            i <= b@.len(),
            cs@ =~= b@.subrange(0, i as int).map_values(|x: u8| x as char),
        decreases b@.len() - i,
    {
        cs.push(b[i] as char);
        i = i + 1;
    }
    assert(b@.subrange(0, b@.len() as int) =~= b@);
    crate::text::string_of(cs.as_slice())
}

/// The time step `offset` steps away from `base`, floored at zero.
pub open spec fn step_at(base: u64, offset: int) -> u64 {
    if base + offset < 0 {
        0
    } else if base + offset > u64::MAX {
        u64::MAX
    } else {
        (base + offset) as u64
    }
}

/// Whether `code` is accepted for a decoded secret at clock reading `now`:
/// it must equal the code of the current step, the one before, or the one
/// after.
pub open spec fn accepts(key: Seq<u8>, code: Seq<u8>, now: u64) -> bool {
    let base = now / TOTP_PERIOD;
    ||| code == totp(key, step_at(base, 0))
    ||| code == totp(key, step_at(base, -1))
    ||| code == totp(key, step_at(base, 1))
}

/// The second factor: RFC 6238 TOTP over base32 secrets.
pub struct MfaEngine;

impl MfaEngine {
    /// A new secret: the base32 text of 20 random bytes.
    pub fn generate_secret() -> (s: String)
        ensures
            exists|b: Seq<u8>| b.len() == 20 && s@ == base32_of(b),
    {
        let bytes = random_bytes(20);
        base32_encode(bytes.as_slice())
    }

    /// Checks `code` against `secret` at clock reading `now` (seconds), with
    /// one step of tolerance either way; a secret that is not base32 is
    /// refused.
    pub fn verify_totp_at(secret: &str, code: &str, now: u64) -> (ok: bool)
        ensures
            ok == (match base32_decoded(secret@) {
                Some(key) => accepts(key, code.spec_bytes(), now),
                None => false,
            }),
    {
        let time_step = now / TOTP_PERIOD;
        let key = match base32_decode(secret) {
            Some(k) => k,
            None => return false,
        };
        let code_bytes = code.as_bytes();
        let g0 = totp_bytes(key.as_slice(), time_step);
        if ct_eq_bytes(g0.as_slice(), code_bytes) {
            return true;
        }
        let prev = if time_step == 0 {
            0
        } else {
            time_step - 1
        };
        let g1 = totp_bytes(key.as_slice(), prev);
        if ct_eq_bytes(g1.as_slice(), code_bytes) {
            return true;
        }
        let next = time_step.saturating_add(1);
        let g2 = totp_bytes(key.as_slice(), next);
        if ct_eq_bytes(g2.as_slice(), code_bytes) {
            return true;
        }
        false
    }

    /// Checks `code` against `secret` at the current time; see
    /// [`MfaEngine::verify_totp_at`]. A secret that is not base32 is always
    /// refused.
    pub fn verify_totp(secret: &str, code: &str) -> (ok: bool)
        ensures
            base32_decoded(secret@) is None ==> !ok,
            exists|now: u64| ok == #[trigger] Self::verify_totp_spec(secret@, code.spec_bytes(), now),
    {
        let now = crate::clock::now_secs();
        let ok = Self::verify_totp_at(secret, code, now);
        assert(ok == Self::verify_totp_spec(secret@, code.spec_bytes(), now));
        ok
    }

    /// The decision of [`MfaEngine::verify_totp_at`] at clock reading `now`.
    pub open spec fn verify_totp_spec(secret: Seq<char>, code: Seq<u8>, now: u64) -> bool {
        match base32_decoded(secret) {
            Some(key) => accepts(key, code, now),
            None => false,
        }
    }

    /// The `otpauth://` URL that authenticator apps scan.
    pub fn generate_qr_url(email: &str, secret: &str) -> (url: String)
        ensures
            url@ == "otpauth://totp/XIRA:"@ + email@ + "?secret="@ + secret@
                + "&issuer=XIRA&digits=6&period=30"@,
    {
        let a = crate::text::chars_of("otpauth://totp/XIRA:");
        let e = crate::text::chars_of(email);
        let b = crate::text::chars_of("?secret=");
        let s = crate::text::chars_of(secret);
        let c = crate::text::chars_of("&issuer=XIRA&digits=6&period=30");
        let t1 = crate::text::concat(a.as_slice(), e.as_slice());
        let t2 = crate::text::concat(t1.as_slice(), b.as_slice());
        let t3 = crate::text::concat(t2.as_slice(), s.as_slice());
        let t4 = crate::text::concat(t3.as_slice(), c.as_slice());
        crate::text::string_of(t4.as_slice())
    }
}

} // verus!
