//! Encryption of stored webhook URLs: AES-256-GCM under a key derived from
//! the notification secret with SHA-256, a random 12-byte nonce in front of
//! the ciphertext, the whole in standard base64.
use vstd::prelude::*;

use crate::text::owned;
use aes_gcm::aead::rand_core::RngCore;
use aes_gcm::aead::{Aead, KeyInit};
use base64::Engine;
use sha2::Digest;

verus! {

// ---------------------------------------------------------------------------
// UTF-8
// ---------------------------------------------------------------------------

/// The UTF-8 encoding of one character.
pub open spec fn utf8_char_bytes(c: char) -> Seq<u8> {
    let v = c as int;
    if v < 0x80 {
        seq![v as u8]
    } else if v < 0x800 {
        seq![(0xC0 + v / 64) as u8, (0x80 + v % 64) as u8]
    } else if v < 0x10000 {
        seq![(0xE0 + v / 4096) as u8, (0x80 + (v / 64) % 64) as u8, (0x80 + v % 64) as u8]
    } else {
        seq![
            (0xF0 + v / 262144) as u8,
            (0x80 + (v / 4096) % 64) as u8,
            (0x80 + (v / 64) % 64) as u8,
            (0x80 + v % 64) as u8,
        ]
    }
}

/// The UTF-8 encoding of a string.
pub open spec fn utf8_bytes(s: Seq<char>) -> Seq<u8>
    decreases s.len(),
{
    if s.len() == 0 {
        Seq::empty()
    } else {
        utf8_bytes(s.drop_last()) + utf8_char_bytes(s.last())
    }
}

/// What `String::from_utf8` makes of some bytes: the string they encode,
/// or nothing when they are not UTF-8.
pub uninterp spec fn utf8_decode(bytes: Seq<u8>) -> Option<Seq<char>>;

/// `str::as_bytes` (copied): the UTF-8 encoding of the string, which
/// `String::from_utf8` turns back into the same string. A string, like any
/// slice, holds at most `isize::MAX` bytes.
#[verifier::external_body]
pub(crate) fn str_bytes(s: &str) -> (r: Vec<u8>)
    ensures
        r@ == utf8_bytes(s@),
        utf8_decode(r@) == Some(s@),
        r@.len() <= isize::MAX,
{
    s.as_bytes().to_vec()
}

/// `String::from_utf8`: the string the bytes encode, if they are UTF-8;
/// nothing when no string has them as its UTF-8 encoding.
#[verifier::external_body]
fn string_from_utf8(bytes: Vec<u8>) -> (r: Option<String>)
    ensures
        match r {
            Some(s) => utf8_decode(bytes@) == Some(s@) && utf8_bytes(s@) == bytes@,
            None => utf8_decode(bytes@) is None && forall|t: Seq<char>|
                #[trigger] utf8_bytes(t) != bytes@,
        },
{
    String::from_utf8(bytes).ok()
}

// ---------------------------------------------------------------------------
// Outside primitives
// ---------------------------------------------------------------------------

/// SHA-256 of some bytes, as sha2 computes it.
pub uninterp spec fn sha256(bytes: Seq<u8>) -> Seq<u8>;

/// `Sha256::digest` (sha2): the 32-byte digest.
#[verifier::external_body]
pub(crate) fn sha256_digest(bytes: &[u8]) -> (r: Vec<u8>)
    ensures
        r@ == sha256(bytes@),
        r@.len() == 32,
{
    sha2::Sha256::digest(bytes).to_vec()
}

/// The standard base64 text of some bytes, as base64 writes it.
pub uninterp spec fn base64_encode(bytes: Seq<u8>) -> Seq<char>;

/// What standard base64 decoding gives for a text, if it is valid.
pub uninterp spec fn base64_decode(text: Seq<char>) -> Option<Seq<u8>>;

/// `STANDARD.encode` (base64), padded: four characters for every three
/// bytes or part of three. Decoding the text gives the bytes back. The
/// encoding panics when its length overflows `usize`.
#[verifier::external_body]
fn b64_encode(bytes: &[u8]) -> (r: String)
    requires
        4 * ((bytes@.len() + 2) / 3) <= usize::MAX,
    ensures
        r@ == base64_encode(bytes@),
        r@.len() == 4 * ((bytes@.len() + 2) / 3),
        base64_decode(r@) == Some(bytes@),
{
    base64::engine::general_purpose::STANDARD.encode(bytes)
}

/// The text of the error standard base64 decoding reports for an invalid
/// input (`DecodeError`'s `Display`).
pub uninterp spec fn base64_error_text(text: Seq<char>) -> Seq<char>;

/// `STANDARD.decode` (base64): the bytes, or the error's text on invalid
/// input.
#[verifier::external_body]
pub(crate) fn b64_decode(text: &str) -> (r: Result<Vec<u8>, String>)
    ensures
        match r {
            Ok(b) => base64_decode(text@) == Some(b@),
            Err(m) => base64_decode(text@) is None && m@ == base64_error_text(text@),
        },
{
    base64::engine::general_purpose::STANDARD.decode(text).map_err(|e| e.to_string())
}

/// What `String::from_utf8_lossy` makes of some bytes (invalid sequences
/// replaced by U+FFFD).
pub uninterp spec fn utf8_lossy(bytes: Seq<u8>) -> Seq<char>;

/// `String::from_utf8_lossy` (owned): for valid UTF-8, exactly the string
/// the bytes encode.
#[verifier::external_body]
pub(crate) fn string_from_utf8_lossy(bytes: &[u8]) -> (r: String)
    ensures
        r@ == utf8_lossy(bytes@),
        utf8_decode(bytes@) matches Some(s) ==> r@ == s,
{
    String::from_utf8_lossy(bytes).to_string()
}

/// AES-256-GCM encryption (ciphertext followed by the 16-byte tag) under a
/// 32-byte key and a 12-byte nonce, as aes-gcm computes it.
pub uninterp spec fn aes_gcm_seal(key: Seq<u8>, nonce: Seq<u8>, plaintext: Seq<u8>) -> Option<Seq<u8>>;

/// AES-256-GCM decryption: the plaintext when the tag checks, nothing
/// otherwise.
pub uninterp spec fn aes_gcm_open(key: Seq<u8>, nonce: Seq<u8>, ciphertext: Seq<u8>) -> Option<Seq<u8>>;

/// The longest plaintext AES-GCM encrypts: 2^36 bytes (aes-gcm's `P_MAX`).
pub const AES_GCM_P_MAX: u64 = 68_719_476_736;

/// `Aes256Gcm::new_from_slice` then `encrypt` (aes-gcm). The result is the
/// ciphertext with the tag appended, 16 bytes longer than the plaintext,
/// and decrypting it under the same key and nonce gives the plaintext back.
/// With a 32-byte key, encryption fails exactly when the plaintext is
/// longer than `P_MAX` (the tag is appended to a `Vec`, which cannot fail).
#[verifier::external_body]
fn aes_gcm_encrypt(key: &[u8], nonce: &[u8], plaintext: &[u8]) -> (r: Option<Vec<u8>>)
    requires
        key@.len() == 32,
        nonce@.len() == 12,
    ensures
        r is Some <==> plaintext@.len() <= AES_GCM_P_MAX,
        match r {
            Some(c) => aes_gcm_seal(key@, nonce@, plaintext@) == Some(c@) && aes_gcm_open(
                key@,
                nonce@,
                c@,
            ) == Some(plaintext@) && c@.len() == plaintext@.len() + 16,
            None => aes_gcm_seal(key@, nonce@, plaintext@) is None,
        },
{
    let cipher = aes_gcm::Aes256Gcm::new_from_slice(key).ok()?;
    cipher.encrypt(aes_gcm::Nonce::from_slice(nonce), plaintext).ok()
}

/// `Aes256Gcm::new_from_slice` then `decrypt` (aes-gcm).
#[verifier::external_body]
fn aes_gcm_decrypt(key: &[u8], nonce: &[u8], ciphertext: &[u8]) -> (r: Option<Vec<u8>>)
    requires
        key@.len() == 32,
        nonce@.len() == 12,
    ensures
        match r {
            Some(p) => aes_gcm_open(key@, nonce@, ciphertext@) == Some(p@),
            None => aes_gcm_open(key@, nonce@, ciphertext@) is None,
        },
{
    let cipher = aes_gcm::Aes256Gcm::new_from_slice(key).ok()?;
    cipher.decrypt(aes_gcm::Nonce::from_slice(nonce), ciphertext).ok()
}

/// Twelve bytes from the operating system's random source (`OsRng`). Only
/// the length is stated.
#[verifier::external_body]
fn random_nonce() -> (r: Vec<u8>)
    ensures
        r@.len() == 12,
{
    let mut nonce = [0u8; 12];
    aes_gcm::aead::OsRng.fill_bytes(&mut nonce);
    nonce.to_vec()
}

// ---------------------------------------------------------------------------
// Webhook URL encryption
// ---------------------------------------------------------------------------

/// The key derived from a secret: SHA-256 of its UTF-8 bytes; a secret
/// shorter than 16 bytes is refused.
pub open spec fn key_of(secret: Seq<char>) -> Result<Seq<u8>, Seq<char>> {
    if utf8_bytes(secret).len() < 16 {
        Err("secret too short"@)
    } else {
        Ok(sha256(utf8_bytes(secret)))
    }
}

/// What decrypting a stored ciphertext gives, each failure with its message.
pub open spec fn decrypt_spec(secret: Seq<char>, ciphertext: Seq<char>) -> Result<Seq<char>, Seq<char>> {
    match base64_decode(ciphertext) {
        None => Err("invalid base64"@),
        Some(payload) => if payload.len() <= 12 {
            Err("invalid ciphertext"@)
        } else {
            match key_of(secret) {
                Err(m) => Err(m),
                Ok(key) => match aes_gcm_open(key, payload.take(12), payload.skip(12)) {
                    None => Err("decrypt failed"@),
                    Some(plain) => match utf8_decode(plain) {
                        None => Err("invalid utf8"@),
                        Some(s) => Ok(s),
                    },
                },
            }
        },
    }
}

fn cipher_key(secret: &str) -> (r: Result<Vec<u8>, String>)
    ensures
        match key_of(secret@) {
            Ok(k) => r matches Ok(x) && x@ == k && x@.len() == 32,
            Err(m) => r matches Err(e) && e@ == m,
        },
{
    let bytes = str_bytes(secret);
    if bytes.len() < 16 {
        return Err(owned("secret too short"));
    }
    Ok(sha256_digest(bytes.as_slice()))
}

pub(crate) fn copy_bytes(v: &[u8], from: usize, to: usize) -> (r: Vec<u8>)
    requires
        from <= to <= v@.len(),
    ensures
        r@ == v@.subrange(from as int, to as int),
{
    let mut r: Vec<u8> = Vec::new();
    let mut j = from;
    while j < to
        invariant
            from <= j <= to <= v@.len(),
            r@ == v@.subrange(from as int, j as int),
        decreases to - j,
    {
        r.push(v[j]);
        assert(v@.subrange(from as int, j + 1) =~= v@.subrange(from as int, j as int).push(v@[j as int]));
        j = j + 1;
    }
    r
}

/// Decrypts a stored webhook URL.
pub fn decrypt_webhook_url(secret: &str, ciphertext: &str) -> (r: Result<String, String>)
    ensures
        match decrypt_spec(secret@, ciphertext@) {
            Ok(p) => r matches Ok(x) && x@ == p,
            Err(m) => r matches Err(e) && e@ == m,
        },
{
    let payload = match b64_decode(ciphertext) {
        Ok(p) => p,
        Err(_) => {
            return Err(owned("invalid base64"));
        },
    };
    if payload.len() <= 12 {
        return Err(owned("invalid ciphertext"));
    }
    let key = match cipher_key(secret) {
        Ok(k) => k,
        Err(e) => {
            return Err(e);
        },
    };
    let n = payload.len();
    let nonce = copy_bytes(payload.as_slice(), 0, 12);
    let body = copy_bytes(payload.as_slice(), 12, n);
    assert(nonce@ =~= payload@.take(12));
    assert(body@ =~= payload@.skip(12));
    let plain = match aes_gcm_decrypt(key.as_slice(), nonce.as_slice(), body.as_slice()) {
        Some(p) => p,
        None => {
            return Err(owned("decrypt failed"));
        },
    };
    match string_from_utf8(plain) {
        Some(s) => Ok(s),
        None => Err(owned("invalid utf8")),
    }
}

/// The UTF-8 encoding of a string has at least one byte per character.
pub proof fn lemma_utf8_bytes_at_least_chars(s: Seq<char>)
    ensures
        utf8_bytes(s).len() >= s.len(),
    decreases s.len(),
{
    if s.len() > 0 {
        lemma_utf8_bytes_at_least_chars(s.drop_last());
    }
}

/// Encrypts a webhook URL for storage. With a secret of at least 16 bytes
/// and a URL of at most `AES_GCM_P_MAX` bytes, it succeeds; whatever nonce
/// is drawn, the stored text decrypts back to the URL under the same
/// secret. The stored text is the padded base64 of the 12-byte nonce, the
/// URL's bytes and the 16-byte tag, so it is longer than the URL and never
/// equal to it. A longer URL is refused with "encrypt failed".
pub fn encrypt_webhook_url(secret: &str, plaintext: &str) -> (r: Result<String, String>)
    ensures
        key_of(secret@) is Err ==> (r matches Err(e) && e@ == "secret too short"@),
        key_of(secret@) is Ok && utf8_bytes(plaintext@).len() <= AES_GCM_P_MAX ==> r is Ok,
        key_of(secret@) is Ok ==> match r {
            Ok(c) => {
                &&& decrypt_spec(secret@, c@) == Ok::<Seq<char>, Seq<char>>(plaintext@)
                &&& c@.len() == 4 * ((utf8_bytes(plaintext@).len() + 28 + 2) / 3)
                &&& c@.len() > plaintext@.len()
                &&& c@ != plaintext@
            },
            Err(e) => e@ == "encrypt failed"@ && utf8_bytes(plaintext@).len() > AES_GCM_P_MAX,
        },
{
    let key = match cipher_key(secret) {
        Ok(k) => k,
        Err(e) => {
            return Err(e);
        },
    };
    let nonce = random_nonce();
    let plain = str_bytes(plaintext);
    let sealed = match aes_gcm_encrypt(key.as_slice(), nonce.as_slice(), plain.as_slice()) {
        Some(c) => c,
        None => {
            return Err(owned("encrypt failed"));
        },
    };
    let mut payload = nonce.clone();
    assert(payload@ == nonce@);
    for i in 0..sealed.len()
        invariant
            payload@ == nonce@ + sealed@.take(i as int),
    {
        payload.push(sealed[i]);
        assert(sealed@.take(i + 1) =~= sealed@.take(i as int).push(sealed@[i as int]));
        assert(payload@ =~= nonce@ + sealed@.take(i + 1));
    }
    assert(sealed@.take(sealed@.len() as int) =~= sealed@);
    assert(payload@.take(12) =~= nonce@);
    assert(payload@.skip(12) =~= sealed@);
    proof {
        let n = plain@.len() as int;
        lemma_utf8_bytes_at_least_chars(plaintext@);
        assert(payload@.len() == n + 28);
        assert(0 <= n <= isize::MAX);
        assert(4 * ((n + 28 + 2) / 3) <= usize::MAX) by (nonlinear_arith)
            requires
                0 <= n <= isize::MAX,
                usize::MAX == 2 * isize::MAX + 1,
                isize::MAX >= 0x7fff_ffff,
        ;
        assert(4 * ((n + 28 + 2) / 3) > n) by (nonlinear_arith)
            requires
                0 <= n,
        ;
    }
    let text = b64_encode(payload.as_slice());
    Ok(text)
}

} // verus!
