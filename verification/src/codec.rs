//! Alias validation and deterministic short-code derivation.

use base64::Engine;
use sha2::Digest;
use vstd::prelude::*;
use vstd::string::StrSliceExecFns;
use vstd::utf8::encode_utf8;

verus! {

/// Characters allowed in a user-chosen alias: ASCII letters and digits.
pub open spec fn is_alias_char(c: char) -> bool {
    ('a' <= c && c <= 'z') || ('A' <= c && c <= 'Z') || ('0' <= c && c <= '9')
}

/// A user-chosen alias is valid when it has at most 16 characters,
/// all drawn from `[A-Za-z0-9]`.
pub open spec fn valid_alias(s: Seq<char>) -> bool {
    &&& s.len() <= 16
    &&& forall|i: int| 0 <= i < s.len() ==> is_alias_char(s[i])
}

/// Rejects an alias longer than 16 characters or containing a character
/// outside `[A-Za-z0-9]`. The empty alias passes; the caller treats it as
/// "no alias requested", not as input to be validated.
pub fn validate_alias(alias: &str) -> (r: bool)
    ensures
        r == valid_alias(alias@),
{
    let n = alias.unicode_len();
    if n > 16 {
        return false;
    }
    let mut i: usize = 0;
    while i < n
        invariant
            i <= n,
            n == alias@.len(),
            n <= 16,
            forall|j: int| 0 <= j < i ==> is_alias_char(alias@[j]),
        decreases n - i,
    {
        let c = alias.get_char(i);
        if !(('a' <= c && c <= 'z') || ('A' <= c && c <= 'Z') || ('0' <= c && c <= '9')) {
            return false;
        }
        i = i + 1;
    }
    true
}

/// The SHA-256 digest of a byte sequence, named but not written out:
/// it depends on the input bytes alone.
pub uninterp spec fn sha256_of(bytes: Seq<u8>) -> Seq<u8>;

/// The URL-safe, padding-free base64 encoding of a byte sequence,
/// named but not written out: it depends on the input bytes alone.
pub uninterp spec fn base64url_of(bytes: Seq<u8>) -> Seq<char>;

/// Characters of the URL-safe base64 alphabet: `[A-Za-z0-9_-]`.
pub open spec fn is_base64url_char(c: char) -> bool {
    is_alias_char(c) || c == '-' || c == '_'
}

/// Relies on sha2::Sha256 (update, then finalize): returns the 32-byte
/// SHA-256 digest of the input, a function of the input bytes alone.
#[verifier::external_body]
fn sha256_digest(input: &[u8]) -> (r: Vec<u8>)
    ensures
        r@ == sha256_of(input@),
        r@.len() == 32,
{
    let mut hasher = sha2::Sha256::new();
    hasher.update(input);
    let digest = hasher.finalize();
    digest.to_vec()
}

/// Relies on base64's URL_SAFE_NO_PAD engine: encodes the input in the
/// URL-safe base64 alphabet without padding, so the result holds
/// ceil(4n/3) characters, each from `[A-Za-z0-9_-]`, and depends on the
/// input bytes alone.
#[verifier::external_body]
fn base64url_encode(input: &Vec<u8>) -> (r: String)
    ensures
        r@ == base64url_of(input@),
        r@.len() == (input@.len() * 4 + 2) / 3,
        forall|i: int| 0 <= i < r@.len() ==> is_base64url_char(r@[i]),
{
    base64::engine::general_purpose::URL_SAFE_NO_PAD.encode(input)
}

/// The generated short code of a long URL: the first 8 characters of the
/// URL-safe base64 encoding of the SHA-256 digest of the URL's UTF-8 bytes.
pub open spec fn derived_code(url: Seq<char>) -> Seq<char> {
    base64url_of(sha256_of(encode_utf8(url))).take(8)
}

/// Derives the short code for a long URL: hash, encode, truncate to
/// 8 characters. Deterministic: equal URLs give equal codes.
pub fn hash_long_url(long_url: &str) -> (r: String)
    ensures
        r@ == derived_code(long_url@),
        r@.len() == 8,
        forall|i: int| 0 <= i < r@.len() ==> is_base64url_char(r@[i]),
{
    let digest = sha256_digest(long_url.as_bytes());
    let encoded = base64url_encode(&digest);
    assert(encoded@.len() == 43);
    let code = encoded.as_str().substring_char(0, 8);
    assert(code@ =~= derived_code(long_url@));
    code.to_owned()
}

} // verus!
