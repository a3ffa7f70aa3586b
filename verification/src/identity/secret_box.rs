//! Encryption of secrets at rest with AES-256-GCM. The key is either 64
//! hexadecimal digits taken as raw bytes, or a passphrase of at least 32
//! bytes stretched with Argon2id. A sealed secret is the base64 text of a
//! version byte, the 12-byte nonce, and the ciphertext with its tag.
use vstd::prelude::*;
use vstd::string::StringSliceAdditionalSpecFns;
use base64::Engine;
use aes_gcm::aead::{Aead, KeyInit};
use crate::text::{chars_of, string_of, concat};
use crate::config::text;

verus! {

/// Why a secret could not be sealed or opened, or a key not made.
#[derive(Debug)]
pub enum SecretBoxError {
    /// No key was configured.
    MissingKey,
    /// The passphrase (or the salt) is too short: its length in bytes.
    WeakKey(usize),
    /// The sealed text is not a sealed secret.
    InvalidCiphertext(String),
    /// The ciphertext does not open under this key.
    DecryptionFailed(String),
    /// Encryption or key derivation failed.
    EncryptionFailed(String),
}

impl SecretBoxError {
    /// The message of the error.
    pub fn message(&self) -> (m: String)
        ensures
            match self {
                SecretBoxError::MissingKey => m@ == "XIRA_SECRETS_KEY environment variable is not set"@,
                SecretBoxError::WeakKey(n) => m@ == "XIRA_SECRETS_KEY too short ("@ + crate::fmt::decimal(*n as nat)
                    + " bytes); need at least 32"@,
                SecretBoxError::InvalidCiphertext(e) => m@ == "invalid ciphertext: "@ + e@,
                SecretBoxError::DecryptionFailed(e) => m@ == "decryption failed: "@ + e@,
                SecretBoxError::EncryptionFailed(e) => m@ == "encryption failed: "@ + e@,
            },
    {
        match self {
            SecretBoxError::MissingKey => text("XIRA_SECRETS_KEY environment variable is not set"),
            SecretBoxError::WeakKey(n) => {
                let a = concat(
                    chars_of("XIRA_SECRETS_KEY too short (").as_slice(),
                    crate::fmt::decimal_text(*n as u64).as_slice(),
                );
                string_of(concat(a.as_slice(), chars_of(" bytes); need at least 32").as_slice()).as_slice())
            },
            SecretBoxError::InvalidCiphertext(e) => string_of(
                concat(chars_of("invalid ciphertext: ").as_slice(), chars_of(e.as_str()).as_slice()).as_slice(),
            ),
            SecretBoxError::DecryptionFailed(e) => string_of(
                concat(chars_of("decryption failed: ").as_slice(), chars_of(e.as_str()).as_slice()).as_slice(),
            ),
            SecretBoxError::EncryptionFailed(e) => string_of(
                concat(chars_of("encryption failed: ").as_slice(), chars_of(e.as_str()).as_slice()).as_slice(),
            ),
        }
    }
}

/// The standard base64 text of some bytes.
pub uninterp spec fn base64_of(b: Seq<u8>) -> Seq<char>;

/// The bytes a text decodes to as standard base64, when it is base64.
pub uninterp spec fn base64_decoded(s: Seq<char>) -> Option<Seq<u8>>;

/// The AES-256-GCM ciphertext with its tag of a plaintext under a key and nonce.
pub uninterp spec fn gcm_sealed(key: Seq<u8>, nonce: Seq<u8>, plaintext: Seq<u8>) -> Seq<u8>;

/// The Argon2id (version 0x13) output of a password and salt with the
/// given memory, time, parallelism and output length.
pub uninterp spec fn argon2id_of(password: Seq<u8>, salt: Seq<u8>, m_cost: u32, t_cost: u32, p_cost: u32, out_len: usize) -> Seq<u8>;

/// `base64::engine::general_purpose::STANDARD.encode`: the standard base64
/// text, named.
#[verifier::external_body]
fn base64_encode(b: &[u8]) -> (s: String)
    ensures
        s@ == base64_of(b@),
{
    base64::engine::general_purpose::STANDARD.encode(b)
}

/// `base64::engine::general_purpose::STANDARD.decode`: succeeds exactly on
/// base64 text, giving the named bytes; the text of some bytes decodes back
/// to them. The error's message is passed on.
#[verifier::external_body]
fn base64_decode(s: &str) -> (r: Result<Vec<u8>, String>)
    ensures
        r is Ok <==> base64_decoded(s@) is Some,
        r matches Ok(v) ==> v@ == base64_decoded(s@)->0,
        (exists|b: Seq<u8>| s@ == #[trigger] base64_of(b)) ==> r is Ok,
        r matches Ok(v) ==> forall|b: Seq<u8>| s@ == #[trigger] base64_of(b) ==> v@ == b,
{
    match base64::engine::general_purpose::STANDARD.decode(s.as_bytes()) {
        Ok(v) => Ok(v),
        Err(e) => Err(e.to_string()),
    }
}

/// `Aes256Gcm::encrypt` under a 32-byte key and a 12-byte nonce: when it
/// succeeds, the named ciphertext, 16 tag bytes longer than the plaintext.
/// It fails exactly on a plaintext longer than `aes_gcm::P_MAX` (2^36
/// bytes).
#[verifier::external_body]
fn gcm_encrypt(key: &[u8], nonce: &[u8], plaintext: &[u8]) -> (r: Result<Vec<u8>, String>)
    requires
        key@.len() == 32,
        nonce@.len() == 12,
    ensures
        r matches Ok(c) ==> c@ == gcm_sealed(key@, nonce@, plaintext@) && c@.len() == plaintext@.len() + 16,
        r is Ok <==> plaintext@.len() <= GCM_MAX_PLAINTEXT,
{
    match aes_gcm::Aes256Gcm::new_from_slice(key) {
        Ok(cipher) => cipher.encrypt(aes_gcm::Nonce::from_slice(nonce), plaintext).map_err(|e| e.to_string()),
        Err(e) => Err(e.to_string()),
    }
}

/// `Aes256Gcm::decrypt` under a 32-byte key and a 12-byte nonce: a
/// ciphertext that encryption made under the same key and nonce, of a
/// plaintext of at most `aes_gcm::P_MAX` bytes, opens to that plaintext.
/// What it gives for other input is not stated.
#[verifier::external_body]
fn gcm_decrypt(key: &[u8], nonce: &[u8], ciphertext: &[u8]) -> (r: Result<Vec<u8>, String>)
    requires
        key@.len() == 32,
        nonce@.len() == 12,
    ensures
        (exists|p: Seq<u8>| p.len() <= GCM_MAX_PLAINTEXT && ciphertext@ == #[trigger] gcm_sealed(key@, nonce@, p)) ==> r is Ok,
        r matches Ok(v) ==> forall|p: Seq<u8>|
            p.len() <= GCM_MAX_PLAINTEXT && ciphertext@ == #[trigger] gcm_sealed(key@, nonce@, p) ==> v@ == p,
{
    match aes_gcm::Aes256Gcm::new_from_slice(key) {
        Ok(cipher) => cipher.decrypt(aes_gcm::Nonce::from_slice(nonce), ciphertext).map_err(|e| e.to_string()),
        Err(e) => Err(e.to_string()),
    }
}

/// `Argon2::hash_password_into` with Argon2id, version 0x13 and these
/// parameters: when it succeeds, the named output of `out_len` bytes. With
/// the parameters used here (19456 KiB, 2 passes, 1 lane, 32 bytes out) it
/// fails only on a password over `MAX_PWD_LEN` or a salt outside
/// `MIN_SALT_LEN..=MAX_SALT_LEN` (8 to 2^32 - 1 bytes); other parameters
/// are not stated.
#[verifier::external_body]
fn argon2id_derive(password: &[u8], salt: &[u8], m_cost: u32, t_cost: u32, p_cost: u32, out_len: usize) -> (r: Result<
    Vec<u8>,
    String,
>)
    ensures
        r matches Ok(k) ==> k@ == argon2id_of(password@, salt@, m_cost, t_cost, p_cost, out_len) && k@.len() == out_len,
        m_cost == 19456 && t_cost == 2 && p_cost == 1 && out_len == 32 && password@.len() <= 0xFFFF_FFFF && 8
            <= salt@.len() <= 0xFFFF_FFFF ==> r is Ok,
{
    let params = argon2::Params::new(m_cost, t_cost, p_cost, Some(out_len)).map_err(|e| e.to_string())?;
    let a = argon2::Argon2::new(argon2::Algorithm::Argon2id, argon2::Version::V0x13, params);
    let mut out = vec![0u8; out_len];
    a.hash_password_into(password, salt, &mut out).map_err(|e| e.to_string())?;
    Ok(out)
}

/// The longest plaintext AES-GCM seals, in bytes (2^36).
pub const GCM_MAX_PLAINTEXT: u64 = 68719476736;

/// The version byte of the sealed format.
pub const SEAL_VERSION: u8 = 1;

/// The salt used when none is configured.
pub open spec fn default_salt() -> Seq<char> {
    "xira-default-salt-rotate-via-env"@
}

/// The number of bytes of a text in UTF-8.
pub open spec fn byte_len(s: Seq<char>) -> nat {
    vstd::utf8::encode_utf8(s).len()
}

/// An ASCII hexadecimal digit.
pub open spec fn is_hex(c: char) -> bool {
    ('0' <= c <= '9') || ('a' <= c <= 'f') || ('A' <= c <= 'F')
}

/// The value of a hexadecimal digit.
pub open spec fn hex_val(c: char) -> int {
    if '0' <= c <= '9' {
        c as int - '0' as int
    } else if 'a' <= c <= 'f' {
        c as int - 'a' as int + 10
    } else {
        c as int - 'A' as int + 10
    }
}

/// The bytes of a text of hexadecimal digit pairs.
pub open spec fn hex_bytes(s: Seq<char>) -> Seq<u8> {
    Seq::new(s.len() / 2, |i: int| (hex_val(s[2 * i]) * 16 + hex_val(s[2 * i + 1])) as u8)
}

/// A raw key: exactly 64 hexadecimal digits.
pub open spec fn raw_key_text(s: Seq<char>) -> bool {
    s.len() == 64 && forall|i: int| 0 <= i < 64 ==> is_hex(#[trigger] s[i])
}

/// The sealed text of a plaintext under a key with a nonce.
pub open spec fn sealed_text(key: Seq<u8>, nonce: Seq<u8>, plaintext: Seq<u8>) -> Seq<char> {
    base64_of(seq![SEAL_VERSION] + nonce + gcm_sealed(key, nonce, plaintext))
}

/// `s` is the sealed text of `plaintext`, of at most 2^36 bytes, under
/// `key` with a 12-byte nonce, the ciphertext carrying its 16-byte tag.
pub open spec fn seals(key: Seq<u8>, nonce: Seq<u8>, plaintext: Seq<u8>, s: Seq<char>) -> bool {
    &&& nonce.len() == 12
    &&& plaintext.len() <= GCM_MAX_PLAINTEXT
    &&& gcm_sealed(key, nonce, plaintext).len() == plaintext.len() + 16
    &&& s == sealed_text(key, nonce, plaintext)
}

fn bytes_between(b: &[u8], from: usize, to: usize) -> (r: Vec<u8>)
    requires
        from <= to <= b@.len(),
    ensures
        r@ == b@.subrange(from as int, to as int),
{
    let mut r: Vec<u8> = Vec::new();
    let mut i: usize = from;
    while i < to
        invariant
            from <= i <= to,
            to <= b@.len(),
            r@ == b@.subrange(from as int, i as int),
        decreases to - i,
    {
        r.push(b[i]);
        assert(r@ =~= b@.subrange(from as int, i + 1));
        i = i + 1;
    }
    r
}

/// A sealer and opener under one 32-byte key.
pub struct SecretBox {
    key: Vec<u8>,
}

fn hex_digit_value(c: char) -> (v: u8)
    requires
        is_hex(c),
    ensures
        v == hex_val(c),
{
    if '0' <= c && c <= '9' {
        (c as u32 - '0' as u32) as u8
    } else if 'a' <= c && c <= 'f' {
        (c as u32 - 'a' as u32 + 10) as u8
    } else {
        (c as u32 - 'A' as u32 + 10) as u8
    }
}

fn is_hex_char(c: char) -> (r: bool)
    ensures
        r == is_hex(c),
{
    ('0' <= c && c <= '9') || ('a' <= c && c <= 'f') || ('A' <= c && c <= 'F')
}

impl SecretBox {
    /// The key.
    pub closed spec fn key(&self) -> Seq<u8> {
        self.key@
    }

    /// The key is 32 bytes long.
    pub closed spec fn wf(&self) -> bool {
        self.key@.len() == 32
    }

    /// A box from a passphrase and the configured salt (the default salt
    /// when none is configured): a passphrase shorter than 32 bytes is
    /// refused; 64 hexadecimal digits are the key's bytes; any other
    /// passphrase is stretched with Argon2id (19456 KiB, 2 passes, 1 lane)
    /// over a salt of at least 16 bytes.
    pub fn from_passphrase_salted(pass: &str, salt: Option<&str>) -> (r: Result<SecretBox, SecretBoxError>)
        requires
            byte_len(pass@) <= usize::MAX,
            salt matches Some(s) ==> byte_len(s@) <= usize::MAX,
        ensures
            r matches Ok(b) ==> b.wf(),
            byte_len(pass@) < 32 ==> (r matches Err(SecretBoxError::WeakKey(n)) && n == byte_len(pass@)),
            byte_len(pass@) >= 32 && raw_key_text(pass@) ==> (r matches Ok(b) && b.key() == hex_bytes(pass@)),
            byte_len(pass@) >= 32 && !raw_key_text(pass@) ==> ({
                let st = match salt {
                    Some(s) => s@,
                    None => default_salt(),
                };
                if byte_len(st) < 16 {
                    r matches Err(SecretBoxError::WeakKey(n)) && n == byte_len(st)
                } else {
                    match r {
                        Ok(b) => b.key() == argon2id_of(
                            vstd::utf8::encode_utf8(pass@),
                            vstd::utf8::encode_utf8(st),
                            19456,
                            2,
                            1,
                            32,
                        ),
                        Err(e) => e is EncryptionFailed && (byte_len(pass@) > 0xFFFF_FFFF || byte_len(st) > 0xFFFF_FFFF),
                    }
                }
            }),
    {
        proof {
            reveal_strlit("xira-default-salt-rotate-via-env");
            assert(vstd::string::is_ascii("xira-default-salt-rotate-via-env"));
            vstd::string::is_ascii_spec_bytes("xira-default-salt-rotate-via-env");
            assert(byte_len(default_salt()) == 32);
        }
        let plen = pass.len();
        if plen < 32 {
            return Err(SecretBoxError::WeakKey(plen));
        }
        let c = chars_of(pass);
        let mut raw = c.len() == 64;
        let mut i: usize = 0;
        while raw && i < 64
            invariant
                i <= 64,
                raw ==> c@.len() == 64,
                raw ==> forall|j: int| 0 <= j < i ==> is_hex(#[trigger] c@[j]),
                !raw ==> !raw_key_text(c@),
            decreases 64 - i,
        {
            if !is_hex_char(c[i]) {
                raw = false;
            }
            i = i + 1;
        }
        if raw {
            let mut key: Vec<u8> = Vec::new();
            let mut j: usize = 0;
            while j < 32
                invariant
                    j <= 32,
                    raw_key_text(c@),
                    key@ == hex_bytes(c@).subrange(0, j as int),
                decreases 32 - j,
            {
                let hi = hex_digit_value(c[2 * j]);
                let lo = hex_digit_value(c[2 * j + 1]);
                key.push(hi * 16 + lo);
                assert(key@ =~= hex_bytes(c@).subrange(0, j + 1));
                j = j + 1;
            }
            assert(hex_bytes(c@).subrange(0, 32) =~= hex_bytes(c@));
            return Ok(SecretBox { key });
        }
        let salt_text: &str = match salt {
            Some(s) => s,
            None => "xira-default-salt-rotate-via-env",
        };
        let slen = salt_text.len();
        if slen < 16 {
            return Err(SecretBoxError::WeakKey(slen));
        }
        match argon2id_derive(pass.as_bytes(), salt_text.as_bytes(), 19456, 2, 1, 32) {
            Ok(key) => Ok(SecretBox { key }),
            Err(e) => Err(SecretBoxError::EncryptionFailed(e)),
        }
    }

    /// `from_passphrase_salted` with the default salt.
    pub fn from_passphrase(pass: &str) -> (r: Result<SecretBox, SecretBoxError>)
        requires
            byte_len(pass@) <= usize::MAX,
        ensures
            r matches Ok(b) ==> b.wf(),
            byte_len(pass@) < 32 ==> (r matches Err(SecretBoxError::WeakKey(n)) && n == byte_len(pass@)),
            byte_len(pass@) >= 32 && raw_key_text(pass@) ==> (r matches Ok(b) && b.key() == hex_bytes(pass@)),
            byte_len(pass@) >= 32 && !raw_key_text(pass@) ==> match r {
                Ok(b) => b.key() == argon2id_of(
                    vstd::utf8::encode_utf8(pass@),
                    vstd::utf8::encode_utf8(default_salt()),
                    19456,
                    2,
                    1,
                    32,
                ),
                Err(e) => e is EncryptionFailed && byte_len(pass@) > 0xFFFF_FFFF,
            },
    {
        proof {
            reveal_strlit("xira-default-salt-rotate-via-env");
            vstd::string::is_ascii_spec_bytes("xira-default-salt-rotate-via-env");
        }
        Self::from_passphrase_salted(pass, None)
    }

    /// Seals a plaintext under a fresh random nonce.
    pub fn seal(&self, plaintext: &[u8]) -> (r: Result<String, SecretBoxError>)
        requires
            self.wf(),
        ensures
            r matches Ok(s) ==> exists|n: Seq<u8>| #[trigger] seals(self.key(), n, plaintext@, s@),
            r matches Err(e) ==> e is EncryptionFailed,
            r is Ok <==> plaintext@.len() <= GCM_MAX_PLAINTEXT,
    {
        let mut nonce: Vec<u8> = Vec::new();
        let mut i: usize = 0;
        while i < 12
            invariant
                i <= 12,
                nonce@.len() == i,
            decreases 12 - i,
        {
            nonce.push(crate::crypto::random_byte());
            i = i + 1;
        }
        let r = self.seal_with_nonce(plaintext, nonce.as_slice());
        proof {
            if r is Ok {
                assert(seals(self.key(), nonce@, plaintext@, r->Ok_0@));
            }
        }
        r
    }

    /// Seals a plaintext under the given 12-byte nonce.
    pub fn seal_with_nonce(&self, plaintext: &[u8], nonce: &[u8]) -> (r: Result<String, SecretBoxError>)
        requires
            self.wf(),
            nonce@.len() == 12,
        ensures
            r matches Ok(s) ==> seals(self.key(), nonce@, plaintext@, s@),
            r matches Err(e) ==> e is EncryptionFailed,
            r is Ok <==> plaintext@.len() <= GCM_MAX_PLAINTEXT,
    {
        let ct = match gcm_encrypt(self.key.as_slice(), nonce, plaintext) {
            Ok(c) => c,
            Err(e) => {
                return Err(SecretBoxError::EncryptionFailed(e));
            },
        };
        let mut buf: Vec<u8> = Vec::new();
        buf.push(SEAL_VERSION);
        let mut j: usize = 0;
        while j < 12
            invariant
                j <= 12,
                nonce@.len() == 12,
                buf@ == seq![SEAL_VERSION] + nonce@.subrange(0, j as int),
            decreases 12 - j,
        {
            buf.push(nonce[j]);
            assert(buf@ =~= seq![SEAL_VERSION] + nonce@.subrange(0, j + 1));
            j = j + 1;
        }
        let mut k: usize = 0;
        while k < ct.len()
            invariant
                k <= ct@.len(),
                nonce@.len() == 12,
                buf@ == seq![SEAL_VERSION] + nonce@ + ct@.subrange(0, k as int),
            decreases ct@.len() - k,
        {
            proof {
                if k == 0 {
                    assert(nonce@.subrange(0, 12) =~= nonce@);
                }
            }
            buf.push(ct[k]);
            assert(buf@ =~= seq![SEAL_VERSION] + nonce@ + ct@.subrange(0, k + 1));
            k = k + 1;
        }
        proof {
            assert(nonce@.subrange(0, 12) =~= nonce@);
            assert(ct@.subrange(0, ct@.len() as int) =~= ct@);
            assert(buf@ =~= seq![SEAL_VERSION] + nonce@ + ct@);
        }
        let out = base64_encode(buf.as_slice());
        Ok(out)
    }

    /// Opens a sealed text: it must be base64 of at least 29 bytes starting
    /// with the version byte. A text that `seal` made under this key opens
    /// to its plaintext.
    pub fn open(&self, sealed: &str) -> (r: Result<Vec<u8>, SecretBoxError>)
        requires
            self.wf(),
        ensures
            base64_decoded(sealed@) is None ==> r matches Err(SecretBoxError::InvalidCiphertext(_)),
            base64_decoded(sealed@) matches Some(b) && (b.len() < 29 || b[0] != SEAL_VERSION) ==> r matches Err(
                SecretBoxError::InvalidCiphertext(_),
            ),
            r matches Err(e) ==> e is InvalidCiphertext || e is DecryptionFailed,
            forall|n: Seq<u8>, p: Seq<u8>| #[trigger] seals(self.key(), n, p, sealed@) ==> (r matches Ok(v) && v@ == p),
    {
        let buf = match base64_decode(sealed) {
            Ok(b) => b,
            Err(e) => {
                return Err(SecretBoxError::InvalidCiphertext(e));
            },
        };
        if buf.len() < 29 {
            proof {
                assert forall|n: Seq<u8>, p: Seq<u8>| #[trigger] seals(self.key(), n, p, sealed@) implies false by {
                    let full = seq![SEAL_VERSION] + n + gcm_sealed(self.key(), n, p);
                    assert(buf@ == full);
                }
            }
            return Err(SecretBoxError::InvalidCiphertext(text("too short")));
        }
        if buf[0] != SEAL_VERSION {
            proof {
                assert forall|n: Seq<u8>, p: Seq<u8>| #[trigger] seals(self.key(), n, p, sealed@) implies false by {
                    let full = seq![SEAL_VERSION] + n + gcm_sealed(self.key(), n, p);
                    assert(buf@ == full);
                    assert(full[0] == SEAL_VERSION);
                }
            }
            return Err(SecretBoxError::InvalidCiphertext(text("unknown version")));
        }
        let nonce = bytes_between(buf.as_slice(), 1, 13);
        let ct = bytes_between(buf.as_slice(), 13, buf.len());
        let r = gcm_decrypt(self.key.as_slice(), nonce.as_slice(), ct.as_slice());
        proof {
            assert forall|n: Seq<u8>, p: Seq<u8>| #[trigger] seals(self.key(), n, p, sealed@)
                implies ct@ == gcm_sealed(self.key(), nonce@, p) && nonce@ == n && p.len() <= GCM_MAX_PLAINTEXT by {
                let full = seq![SEAL_VERSION] + n + gcm_sealed(self.key(), n, p);
                assert(buf@ == full);
                assert(nonce@ =~= n);
                assert(ct@ =~= gcm_sealed(self.key(), n, p));
            }
        }
        match r {
            Ok(v) => Ok(v),
            Err(e) => Err(SecretBoxError::DecryptionFailed(e)),
        }
    }
}

} // verus!
