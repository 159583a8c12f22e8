//! The token codec: issues and verifies the signed identity token binding a
//! user id and an opaque session token, via the jsonwebtoken crate (HS256).
//!
//! The codec deliberately knows nothing of the session store: token validity
//! (signature and own expiry) and session validity are checked independently,
//! the latter by the authorization guard.

use crate::AuthError;
use vstd::prelude::*;

verus! {

/// Lifetime of an identity token: 14 days, in seconds.
pub const TOKEN_TTL: u64 = 1209600;

/// The claims carried by an identity token.
#[derive(Clone, Debug, PartialEq, Eq)]
pub struct Claims {
    /// The authenticated user's id.
    pub uid: u32,
    /// The opaque session token of the login this identity token was issued for.
    pub token: String,
    /// Expiry of the identity token itself, as seconds since the epoch.
    pub exp: u64,
}

/// Whether jsonwebtoken's `EncodingKey::from_base64_secret` accepts the
/// secret; the same check governs `DecodingKey::from_base64_secret`.
pub uninterp spec fn secret_ok(secret: Seq<char>) -> bool;

/// The compact serialization that jsonwebtoken's `encode` produces for claims
/// `{uid, token, exp}` under this secret: HS256 signing is deterministic, so
/// the result is a function of the inputs.
pub uninterp spec fn jwt_of(secret: Seq<char>, uid: u32, session: Seq<char>, exp: u64) -> Seq<char>;

/// The claims this library reads back from a token via jsonwebtoken's
/// `decode`, with the time-based checks turned off: a pure function of the
/// secret and the token. `None` stands for every decode or shape error.
pub uninterp spec fn jwt_claims(secret: Seq<char>, token: Seq<char>) -> Option<
    (u32, Seq<char>, u64),
>;

/// Relies on jsonwebtoken's `encode` with `Header::new(Algorithm::HS256)` and
/// `EncodingKey::from_base64_secret`: encoding fails exactly when the secret
/// is not valid base64, and `decode` under the same secret recovers the very
/// claims that went in.
#[verifier::external_body]
fn jwt_encode(secret: &str, uid: u32, session: &str, exp: u64) -> (r: Option<String>)
    ensures
        r matches Some(t) ==> secret_ok(secret@) && t@ == jwt_of(secret@, uid, session@, exp)
            && jwt_claims(secret@, t@) == Some((uid, session@, exp)),
        r is None ==> !secret_ok(secret@),
{
    let key = jsonwebtoken::EncodingKey::from_base64_secret(secret).ok()?;
    let mut claims = serde_json::Map::new();
    claims.insert("uid".to_string(), serde_json::Value::from(uid));
    claims.insert("token".to_string(), serde_json::Value::from(session));
    claims.insert("exp".to_string(), serde_json::Value::from(exp));
    let header = jsonwebtoken::Header::new(jsonwebtoken::Algorithm::HS256);
    jsonwebtoken::encode(&header, &serde_json::Value::Object(claims), &key).ok()
}

/// Relies on jsonwebtoken's `decode` with `DecodingKey::from_base64_secret`
/// and a `Validation` whose time-based checks are disabled, so the outcome
/// depends on the secret and the token alone.
#[verifier::external_body]
fn jwt_decode(secret: &str, raw: &str) -> (r: Option<(u32, String, u64)>)
    ensures
        !secret_ok(secret@) ==> r is None,
        r matches Some(c) ==> secret_ok(secret@) && jwt_claims(secret@, raw@) == Some(
            (c.0, c.1@, c.2),
        ),
        secret_ok(secret@) && r is None ==> jwt_claims(secret@, raw@) is None,
{
    let key = jsonwebtoken::DecodingKey::from_base64_secret(secret).ok()?;
    let mut validation = jsonwebtoken::Validation::new(jsonwebtoken::Algorithm::HS256);
    validation.validate_exp = false;
    validation.required_spec_claims.clear();
    let data = jsonwebtoken::decode::<serde_json::Value>(raw, &key, &validation).ok()?;
    let uid = u32::try_from(data.claims.get("uid")?.as_u64()?).ok()?;
    let session = data.claims.get("token")?.as_str()?.to_string();
    let exp = data.claims.get("exp")?.as_u64()?;
    Some((uid, session, exp))
}

/// Issues the signed identity token for a fresh login session, valid for
/// `TOKEN_TTL` seconds from `now`. An unusable signing secret is a
/// configuration error, not a per-request failure.
pub fn get_token(secret: &str, user_id: u32, session_token: &str, now: u64) -> (r: Result<
    String,
    AuthError,
>)
    requires
        now + TOKEN_TTL <= u64::MAX,
    ensures
        r matches Ok(t) ==> secret_ok(secret@) && t@ == jwt_of(
            secret@,
            user_id,
            session_token@,
            (now + TOKEN_TTL) as u64,
        ) && jwt_claims(secret@, t@) == Some(
            (user_id, session_token@, (now + TOKEN_TTL) as u64),
        ),
        r matches Err(e) ==> e == AuthError::ConfigurationError && !secret_ok(secret@),
{
    match jwt_encode(secret, user_id, session_token, now + TOKEN_TTL) {
        Some(t) => Ok(t),
        None => Err(AuthError::ConfigurationError),
    }
}

/// Verifies signature, shape and the token's own expiry; returns the claims.
/// Does not consult the session store, by design.
pub fn verify_token(secret: &str, raw: &str, now: u64) -> (r: Result<Claims, AuthError>)
    ensures
        r matches Ok(c) ==> secret_ok(secret@) && jwt_claims(secret@, raw@) == Some(
            (c.uid, c.token@, c.exp),
        ) && now <= c.exp,
        r matches Err(e) ==> e == AuthError::InvalidToken && (!secret_ok(secret@) || jwt_claims(
            secret@,
            raw@,
        ) is None || (jwt_claims(secret@, raw@) matches Some(c) && now > c.2)),
{
    match jwt_decode(secret, raw) {
        Some((uid, session, exp)) => {
            if now <= exp {
                Ok(Claims { uid, token: session, exp })
            } else {
                Err(AuthError::InvalidToken)
            }
        },
        None => Err(AuthError::InvalidToken),
    }
}

} // verus!
