//! The values of an authorization-code request with PKCE: random verifier
//! and state, the S256 challenge, the loopback redirect and the
//! authorization URL the browser is sent to.

use vstd::prelude::*;
use vstd::utf8::encode_utf8;
use base64::Engine;
use sha2::Digest;
use crate::text::{decimal, push_decimal};
use crate::urlcode::{spec_urlencoding, urlencoding};

verus! {

/// What `URL_SAFE_NO_PAD.encode` of the `base64` crate returns for `data`:
/// base64 with the URL-safe alphabet (RFC 4648 section 5), no padding.
pub uninterp spec fn base64_url_nopad(data: Seq<u8>) -> Seq<char>;

/// What `Sha256::digest` of the `sha2` crate returns for `data`.
pub uninterp spec fn sha256(data: Seq<u8>) -> Seq<u8>;

/// The characters of the URL-safe base64 alphabet: letters, digits, `-`, `_`.
pub open spec fn is_base64url_char(c: char) -> bool {
    ||| 'A' <= c <= 'Z'
    ||| 'a' <= c <= 'z'
    ||| '0' <= c <= '9'
    ||| c == '-' || c == '_'
}

/// Length of unpadded base64 for `n` input bytes: four characters per full
/// group of three bytes, two or three for a final partial group.
pub open spec fn base64_nopad_len(n: nat) -> nat {
    (4 * n + 2) / 3
}

/// `base64::engine::general_purpose::URL_SAFE_NO_PAD.encode(data)`.
/// Claimed of it: the result is `base64_url_nopad(data)`, its length is
/// what `base64::encoded_len` gives without padding, and each character is
/// one of the URL-safe alphabet. The crate panics when that length does not
/// fit in `usize`, which `requires` rules out.
#[verifier::external_body]
fn base64_url_encode(data: &[u8]) -> (res: String)
    requires
        base64_nopad_len(data@.len()) <= usize::MAX,
    ensures
        res@ == base64_url_nopad(data@),
        res@.len() == base64_nopad_len(data@.len()),
        forall|i: int| 0 <= i < res@.len() ==> is_base64url_char(#[trigger] res@[i]),
{
    base64::engine::general_purpose::URL_SAFE_NO_PAD.encode(data)
}

/// `sha2::Sha256::digest(data)`, copied into a vector.
/// Claimed of it: the bytes are `sha256(data)`, and there are 32 of them.
#[verifier::external_body]
fn sha256_digest(data: &[u8]) -> (res: Vec<u8>)
    ensures
        res@ == sha256(data@),
        res@.len() == 32,
{
    sha2::Sha256::digest(data).to_vec()
}

/// One byte from `rand::thread_rng().gen::<u8>()`.
/// Nothing is claimed of its value, which is random. `ThreadRng` panics
/// if the operating system's random source fails, which no contract here
/// can rule out.
#[verifier::external_body]
fn random_byte() -> u8 {
    rand::Rng::gen::<u8>(&mut rand::thread_rng())
}

/// `len` random bytes, base64url-encoded without padding.
/// Whatever bytes were drawn, the result is their encoding, so its length
/// and alphabet are fixed by `len`.
pub fn random_string(len: usize) -> (res: String)
    requires
        base64_nopad_len(len as nat) <= usize::MAX,
    ensures
        exists|bytes: Seq<u8>| bytes.len() == len && res@ == base64_url_nopad(bytes),
        res@.len() == base64_nopad_len(len as nat),
        forall|i: int| 0 <= i < res@.len() ==> is_base64url_char(#[trigger] res@[i]),
{
    let mut bytes: Vec<u8> = Vec::new();
    let mut i: usize = 0;
    while i < len
        invariant
            i <= len,
            bytes@.len() == i,
        decreases len - i,
    {
        bytes.push(random_byte());
        i = i + 1;
    }
    let res = base64_url_encode(bytes.as_slice());
    assert(bytes@.len() == len && res@ == base64_url_nopad(bytes@));
    res
}

/// The S256 PKCE challenge of a verifier: the SHA-256 of its UTF-8 bytes,
/// base64url-encoded without padding.
pub fn pkce_challenge(verifier: &str) -> (res: String)
    ensures
        res@ == base64_url_nopad(sha256(encode_utf8(verifier@))),
        res@.len() == 43,
        forall|i: int| 0 <= i < res@.len() ==> is_base64url_char(#[trigger] res@[i]),
{
    let hash = sha256_digest(verifier.as_bytes());
    base64_url_encode(hash.as_slice())
}

/// Length in bytes of the random PKCE verifier.
pub const VERIFIER_BYTES: usize = 64;

/// Length in bytes of the random anti-forgery state.
pub const STATE_BYTES: usize = 32;

/// The loopback address the browser is sent back to, for a listening port.
pub fn redirect_uri_for_port(port: u16) -> (res: String)
    ensures
        res@ == "http://127.0.0.1:"@ + decimal(port as nat) + "/callback"@,
{
    let mut res = String::from_str("http://127.0.0.1:");
    push_decimal(&mut res, port as u64);
    res.append("/callback");
    res
}

/// The authorization URL: the authorization endpoint with the fixed
/// response type, client id and challenge method, and the percent-encoded
/// redirect URI, state and challenge.
pub fn authorization_url(redirect_uri: &str, state: &str, code_challenge: &str) -> (res: String)
    ensures
        res@ == "https://auth.openai.com/authorize"@
            + "?response_type=code&client_id=openai&redirect_uri="@
            + spec_urlencoding(redirect_uri@) + "&state="@ + spec_urlencoding(state@)
            + "&code_challenge="@ + spec_urlencoding(code_challenge@)
            + "&code_challenge_method=S256"@,
{
    let mut res = String::from_str("https://auth.openai.com/authorize");
    res.append("?response_type=code&client_id=openai&redirect_uri=");
    let r = urlencoding(redirect_uri);
    res.append(r.as_str());
    res.append("&state=");
    let s = urlencoding(state);
    res.append(s.as_str());
    res.append("&code_challenge=");
    let c = urlencoding(code_challenge);
    res.append(c.as_str());
    res.append("&code_challenge_method=S256");
    res
}

} // verus!
