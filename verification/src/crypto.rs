//! Opaque-token generation and password hashing: thin trusted wrappers
//! around the uuid and argon2 crates.

use vstd::prelude::*;

verus! {

/// What argon2's `verify_password` decides for a stored PHC hash string and a
/// candidate password. The salt and the parameters travel inside the hash
/// string, so the outcome is a function of the two strings alone; it is named
/// here rather than spelled out.
pub uninterp spec fn password_verifies(hash: Seq<char>, password: Seq<char>) -> bool;

/// Relies on uuid's `Uuid::new_v4` and its `Display` form: a fresh random
/// identifier, printed in the 36-character hyphenated form. Nothing relates
/// two calls, so no more than the length is promised.
#[verifier::external_body]
pub fn fresh_token() -> (r: String)
    ensures
        r@.len() == 36,
{
    uuid::Uuid::new_v4().to_string()
}

/// Relies on argon2's `PasswordHasher::hash_password` (Argon2id, fresh random
/// salt, interactive-grade cost parameters carried inside the hash string):
/// the returned PHC string verifies, under `verify_password`, against
/// exactly the password it was computed from. The salt is drawn from the
/// system RNG, so nothing ties two calls together.
#[verifier::external_body]
pub fn hash_password(password: &str) -> (r: Option<String>)
    ensures
        r matches Some(h) ==> password_verifies(h@, password@),
{
    let params = match argon2::Params::new(2048, 2, 1, None) {
        Ok(p) => p,
        Err(_) => return None,
    };
    let hasher = argon2::Argon2::new(argon2::Algorithm::Argon2id, argon2::Version::V0x13, params);
    let hashed: Result<argon2::password_hash::phc::PasswordHash, _> =
        argon2::password_hash::PasswordHasher::hash_password(&hasher, password.as_bytes());
    match hashed {
        Ok(h) => Some(h.to_string()),
        Err(_) => None,
    }
}

/// Relies on argon2's `PasswordVerifier::verify_password`: it recomputes the
/// hash with the salt and parameters carried inside `hash` and compares, a
/// pure check of the two strings. A string that does not parse as a PHC hash
/// verifies nothing.
#[verifier::external_body]
pub fn check_password(hash: &str, password: &str) -> (r: bool)
    ensures
        r == password_verifies(hash@, password@),
{
    let parsed = match argon2::password_hash::phc::PasswordHash::new(hash) {
        Ok(p) => p,
        Err(_) => return false,
    };
    let hasher = argon2::Argon2::default();
    argon2::password_hash::PasswordVerifier::verify_password(&hasher, password.as_bytes(), &parsed)
        .is_ok()
}

} // verus!
