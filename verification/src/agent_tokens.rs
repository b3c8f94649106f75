//! Agent tokens: how they are made, how their format is checked before any
//! lookup, and the hash under which they are stored.
use vstd::prelude::*;

use crate::account::hex_digit;
use crate::crypto::{sha256, sha256_digest, str_bytes, utf8_bytes};
use crate::error::ApiError;
use crate::text::{chars_of, owned, push_str, trim_chars, trim_seq, utf8_len, utf8_len_at_least,
    string_of};

verus! {

/// Every agent token starts with this.
pub const TOKEN_PREFIX: &'static str = "usk_";

/// The lower-case hexadecimal text of some bytes, two digits per byte.
pub open spec fn hex_encode(bytes: Seq<u8>) -> Seq<char>
    decreases bytes.len(),
{
    if bytes.len() == 0 {
        Seq::empty()
    } else {
        hex_encode(bytes.drop_last()).push(hex_digit(bytes.last() as int / 16)).push(
            hex_digit(bytes.last() as int % 16),
        )
    }
}

/// `hex::encode` (hex): two lower-case hexadecimal digits per byte.
#[verifier::external_body]
fn hex_string(bytes: &[u8]) -> (r: String)
    ensures
        r@ == hex_encode(bytes@),
{
    hex::encode(bytes)
}

/// 32 random bytes: the bytes of two `Uuid::new_v4()` (uuid). Only the
/// length is stated.
#[verifier::external_body]
fn random_token_bytes() -> (r: Vec<u8>)
    ensures
        r@.len() == 32,
{
    let mut bytes = uuid::Uuid::new_v4().as_bytes().to_vec();
    bytes.extend_from_slice(uuid::Uuid::new_v4().as_bytes());
    bytes
}

/// A lower-case or upper-case hexadecimal digit.
pub open spec fn is_hex_digit(c: char) -> bool {
    ('0' <= c && c <= '9') || ('a' <= c && c <= 'f') || ('A' <= c && c <= 'F')
}

/// A token has the agent format: `usk_` then 64 bytes of hexadecimal
/// digits.
pub open spec fn token_format_ok(token: Seq<char>) -> bool {
    &&& token.len() >= 4
    &&& token.take(4) == TOKEN_PREFIX@
    &&& utf8_len(token.skip(4)) == 64
    &&& forall|i: int| 4 <= i < token.len() ==> is_hex_digit(#[trigger] token[i])
}

/// Checks the format of a presented token; a malformed one is forbidden.
pub fn check_token_format(plaintext: &str) -> (r: Result<(), ApiError>)
    ensures
        token_format_ok(plaintext@) ==> r is Ok,
        !token_format_ok(plaintext@) ==> (r matches Err(e) && e.is_forbidden(
            "invalid token format"@,
        )),
{
    proof {
        reveal_strlit("usk_");
    }
    let cs = chars_of(plaintext);
    let prefix = chars_of(TOKEN_PREFIX);
    if !crate::text::starts_with_chars(cs.as_slice(), prefix.as_slice()) {
        return Err(ApiError::forbidden_owned(owned("invalid token format")));
    }
    let n = cs.len();
    let rest = crate::text::copy_range(cs.as_slice(), 4, n);
    assert(rest@ =~= plaintext@.skip(4));
    assert(plaintext@.take(4) =~= TOKEN_PREFIX@);
    if !utf8_len_at_least(rest.as_slice(), 64) || utf8_len_at_least(rest.as_slice(), 65) {
        return Err(ApiError::forbidden_owned(owned("invalid token format")));
    }
    for i in 0..rest.len()
        invariant
            rest@ == plaintext@.skip(4),
            plaintext@.len() >= 4,
            forall|j: int| 0 <= j < i ==> is_hex_digit(#[trigger] rest@[j]),
    {
        let c = rest[i];
        if !(('0' <= c && c <= '9') || ('a' <= c && c <= 'f') || ('A' <= c && c <= 'F')) {
            assert(rest@[i as int] == c);
            assert(plaintext@.skip(4)[i as int] == plaintext@[i + 4]);
            assert(!is_hex_digit(plaintext@[i + 4]));
            return Err(ApiError::forbidden_owned(owned("invalid token format")));
        }
    }
    assert forall|i: int| 4 <= i < plaintext@.len() implies is_hex_digit(#[trigger] plaintext@[i]) by {
        assert(plaintext@[i] == rest@[i - 4]);
    }
    Ok(())
}

/// The label of a new token: trimmed, required, at most 80 bytes.
pub fn validate_token_label(label: &str) -> (r: Result<String, ApiError>)
    ensures
        trim_seq(label@).len() == 0 ==> (r matches Err(e) && e.is_bad_request(
            "label is required"@,
        )),
        trim_seq(label@).len() > 0 && utf8_len(trim_seq(label@)) > 80 ==> (r matches Err(e)
            && e.is_bad_request("label too long (max 80)"@)),
        trim_seq(label@).len() > 0 && utf8_len(trim_seq(label@)) <= 80 ==> (r matches Ok(s)
            && s@ == trim_seq(label@)),
{
    let t = trim_chars(chars_of(label).as_slice());
    if t.len() == 0 {
        return Err(ApiError::bad_request("label is required"));
    }
    if utf8_len_at_least(t.as_slice(), 81) {
        return Err(ApiError::bad_request("label too long (max 80)"));
    }
    Ok(string_of(t.as_slice()))
}

/// The stored hash of a token: SHA-256 of its UTF-8 bytes, in hexadecimal.
pub fn hash_token(plaintext: &str) -> (r: String)
    ensures
        r@ == hex_encode(sha256(utf8_bytes(plaintext@))),
{
    let bytes = str_bytes(plaintext);
    let digest = sha256_digest(bytes.as_slice());
    hex_string(digest.as_slice())
}

/// The hexadecimal text of some bytes has two characters per byte, each a
/// digit or a lower-case letter from `a` to `f`.
pub proof fn lemma_hex_encode_shape(bytes: Seq<u8>)
    ensures
        hex_encode(bytes).len() == 2 * bytes.len(),
        forall|i: int|
            0 <= i < hex_encode(bytes).len() ==> ('0' <= #[trigger] hex_encode(bytes)[i] <= '9')
                || ('a' <= hex_encode(bytes)[i] <= 'f'),
    decreases bytes.len(),
{
    if bytes.len() > 0 {
        lemma_hex_encode_shape(bytes.drop_last());
        let prev = hex_encode(bytes.drop_last());
        let hi = hex_digit(bytes.last() as int / 16);
        let lo = hex_digit(bytes.last() as int % 16);
        assert forall|i: int| 0 <= i < hex_encode(bytes).len() implies ('0' <= #[trigger] hex_encode(
            bytes,
        )[i] <= '9') || ('a' <= hex_encode(bytes)[i] <= 'f') by {
            if i < prev.len() {
                assert(hex_encode(bytes)[i] == prev[i]);
            }
        }
    }
}

proof fn lemma_ascii_utf8_len(s: Seq<char>)
    requires
        forall|i: int| 0 <= i < s.len() ==> (#[trigger] s[i] as u32) < 0x80,
    ensures
        utf8_len(s) == s.len(),
    decreases s.len(),
{
    if s.len() > 0 {
        lemma_ascii_utf8_len(s.drop_last());
    }
}

/// The token made from 32 bytes: `usk_` and the lower-case hexadecimal
/// text of the bytes. It passes the format check.
pub fn token_from_bytes(bytes: &[u8]) -> (r: String)
    requires
        bytes@.len() == 32,
    ensures
        r@ == TOKEN_PREFIX@ + hex_encode(bytes@),
        token_format_ok(r@),
{
    let hex = hex_string(bytes);
    let mut r = owned(TOKEN_PREFIX);
    push_str(&mut r, hex.as_str());
    proof {
        reveal_strlit("usk_");
        lemma_hex_encode_shape(bytes@);
        assert(r@.take(4) =~= TOKEN_PREFIX@);
        assert(r@.skip(4) =~= hex@);
        assert forall|i: int| 0 <= i < hex@.len() implies (#[trigger] hex@[i] as u32) < 0x80 by {}
        lemma_ascii_utf8_len(hex@);
        assert forall|i: int| 4 <= i < r@.len() implies is_hex_digit(#[trigger] r@[i]) by {
            assert(r@[i] == hex@[i - 4]);
        }
    }
    r
}

/// A new token: `usk_` and the 64 lower-case hexadecimal digits of 32
/// random bytes. Every token made this way passes the format check.
pub fn generate_token() -> (r: String)
    ensures
        exists|b: Seq<u8>| b.len() == 32 && r@ == TOKEN_PREFIX@ + hex_encode(b),
        token_format_ok(r@),
{
    let bytes = random_token_bytes();
    token_from_bytes(bytes.as_slice())
}

} // verus!
