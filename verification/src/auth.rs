//! Token verification, consumed as an opaque service: the hub only needs the
//! verified claims of a join handshake, never the token's internals.

use vstd::prelude::*;

verus! {

/// The claims carried by an access token.
#[derive(Clone, Debug)]
pub struct AccessClaims {
    pub sub: String,
    pub username: String,
    pub email: String,
    pub exp: usize,
}

/// The claims carried by a refresh token.
#[derive(Clone, Debug)]
pub struct RefreshClaims {
    pub sub: String,
    pub exp: usize,
}

/// Relies on jsonwebtoken::decode with the default validation: it yields the
/// token's claims only when the signature matches the secret and the token
/// has not expired. Whether it succeeds depends on the secret, the token and
/// the clock, so nothing is promised of the outcome; the caller acts on
/// whatever comes back.
#[verifier::external_body]
pub fn verify_access_token(token: &str, secret: &str) -> (r: Option<AccessClaims>) {
    let key = jsonwebtoken::DecodingKey::from_secret(secret.as_bytes());
    let validation = jsonwebtoken::Validation::default();
    let data = jsonwebtoken::decode::<serde_json::Value>(token, &key, &validation).ok()?;
    let sub = data.claims.get("sub")?.as_str()?.to_string();
    let username = data.claims.get("username")?.as_str()?.to_string();
    let email = data.claims.get("email")?.as_str()?.to_string();
    let exp = data.claims.get("exp")?.as_u64()? as usize;
    Some(AccessClaims { sub, username, email, exp })
}

} // verus!
