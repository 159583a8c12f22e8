//! The token codec and the credential hashing, exercised directly against
//! the real signing and hashing backends.

use wiedzieliscie_backend::crypto::{check_password, hash_password};
use wiedzieliscie_backend::token::{get_token, verify_token, TOKEN_TTL};
use wiedzieliscie_backend::AuthError;

const SECRET: &str = "c2VjcmV0";

#[test]
fn token_round_trip_carries_the_claims() {
    let now: u64 = 1_700_000_000;
    let token = get_token(SECRET, 7, "session-token-x", now).unwrap();
    let claims = verify_token(SECRET, &token, now + 100).unwrap();
    assert_eq!(claims.uid, 7);
    assert_eq!(claims.token, "session-token-x");
    assert_eq!(claims.exp, now + TOKEN_TTL);
}

#[test]
fn token_expires_and_rejects_foreign_signatures() {
    let now: u64 = 1_700_000_000;
    let token = get_token(SECRET, 7, "s", now).unwrap();
    // One second past the fourteen-day expiry.
    assert_eq!(
        verify_token(SECRET, &token, now + TOKEN_TTL + 1),
        Err(AuthError::InvalidToken)
    );
    // A token signed under another secret does not verify. ("b3RoZXI=" is
    // the base64 form of "other".)
    let foreign = get_token("b3RoZXI=", 7, "s", now).unwrap();
    assert_eq!(verify_token(SECRET, &foreign, now), Err(AuthError::InvalidToken));
    // Tampering with the payload breaks the signature.
    let mut tampered = token.clone();
    tampered.insert(10, 'x');
    assert_eq!(verify_token(SECRET, &tampered, now), Err(AuthError::InvalidToken));
    // Garbage is malformed.
    assert_eq!(verify_token(SECRET, "garbage", now), Err(AuthError::InvalidToken));
}

#[test]
fn issuing_needs_a_usable_secret() {
    assert_eq!(
        get_token("%%%", 7, "s", 1000),
        Err(AuthError::ConfigurationError)
    );
}

#[test]
fn password_hashes_are_salted_and_verify() {
    let h1 = hash_password("hunter2").unwrap();
    let h2 = hash_password("hunter2").unwrap();
    // Fresh salts: the same password hashes differently every time ...
    assert_ne!(h1, h2);
    // ... and the stored form is never the password itself.
    assert_ne!(h1, "hunter2");
    // Both hashes verify the right password and refuse a wrong one.
    assert!(check_password(&h1, "hunter2"));
    assert!(check_password(&h2, "hunter2"));
    assert!(!check_password(&h1, "hunter3"));
    assert!(!check_password(&h1, ""));
    // A string that is no hash at all verifies nothing.
    assert!(!check_password("not-a-hash", "hunter2"));
}
