//! Bearer-token authentication: token generation and header checking.

use rand::RngCore;
use base64::Engine;
use vstd::prelude::*;

verus! {

use crate::text::str_eq;
use vstd::string::StringExecFns;

/// Relies on `rand::rngs::OsRng::fill_bytes`: 32 bytes from the
/// operating system's generator.
#[verifier::external_body]
fn random_bytes_32() -> (r: Vec<u8>)
    ensures
        r@.len() == 32,
{
    let mut buf = [0u8; 32];
    rand::rngs::OsRng.fill_bytes(&mut buf);
    buf.to_vec()
}

/// What the url-safe unpadded encoding of a byte string is.
pub uninterp spec fn base64url_of(bytes: Seq<u8>) -> Seq<char>;

/// Relies on base64's `URL_SAFE_NO_PAD` engine `encode`: the url-safe
/// unpadded encoding, whose length is the ceiling of `4n/3`.
#[verifier::external_body]
fn base64url_nopad(bytes: &Vec<u8>) -> (r: String)
    ensures
        r@ == base64url_of(bytes@),
        r@.len() == (4 * bytes@.len() + 2) / 3,
{
    base64::engine::general_purpose::URL_SAFE_NO_PAD.encode(bytes)
}

/// A fresh bearer token: 32 random bytes, url-safe base64 without
/// padding, which is 43 characters.
pub fn generate_token() -> (r: String)
    ensures
        r@.len() == 43,
{
    let bytes = random_bytes_32();
    base64url_nopad(&bytes)
}

/// The authorization header value a token demands.
pub open spec fn bearer_of(token: Seq<char>) -> Seq<char> {
    "Bearer "@ + token
}

/// Renders the authorization header value for a token.
pub fn bearer_header(token: &str) -> (r: String)
    ensures
        r@ == bearer_of(token@),
{
    let mut s = String::from_str("Bearer ");
    s.append(token);
    s
}

/// Whether an authorization header matches the expected token, by
/// equality with `Bearer <token>`.
pub fn authorize(token: &str, authorization: &str) -> (r: bool)
    ensures
        r == (authorization@ == bearer_of(token@)),
{
    let expected = bearer_header(token);
    str_eq(authorization, expected.as_str())
}

} // verus!
