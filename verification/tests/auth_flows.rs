//! End-to-end exercises of the identity subsystem: registration, login,
//! logout, the four confirmation workflows, and the session rules.

use wiedzieliscie_backend::system::{
    AuthSystem, DeleteData, LoginData, LogoutData, RegisterData, ResetData, RetrieveUserIdData,
    SimpleModifyData,
};
use wiedzieliscie_backend::AuthError;

// "secret" in base64: a well-formed signing secret.
const SECRET: &str = "c2VjcmV0";

fn fresh_system() -> AuthSystem {
    AuthSystem::new(SECRET.to_string())
}

fn register_data(email: &str, password: &str) -> RegisterData {
    RegisterData {
        email: email.to_string(),
        plaintext_password: password.to_string(),
        first_name: "Ada".to_string(),
        last_name: "Lovelace".to_string(),
        gender: 'f',
    }
}

fn login_data(email: &str, password: &str) -> LoginData {
    LoginData { email: email.to_string(), plaintext_password: password.to_string() }
}

/// Registers and verifies an account, returning its id.
fn registered_verified(sys: &mut AuthSystem, email: &str, password: &str, now: u64) -> u32 {
    let (id, token) = sys.begin_registration(&register_data(email, password), now).unwrap();
    let confirmed = sys.confirm_registration(&token, now).unwrap();
    assert_eq!(confirmed, id);
    id
}

#[test]
fn scenario_registration_then_login() {
    let mut sys = fresh_system();
    let now: u64 = 1000;

    let (id, token) = sys
        .begin_registration(&register_data("ada@example.com", "pw1"), now)
        .unwrap();
    assert_eq!(id, 1);

    // Unverified accounts cannot log in, whatever the password.
    assert_eq!(
        sys.login(&login_data("ada@example.com", "pw1"), false, now),
        Err(AuthError::NotVerified)
    );
    assert_eq!(
        sys.login(&login_data("ada@example.com", "wrong"), false, now),
        Err(AuthError::NotVerified)
    );

    // Confirming the emailed token flips the flag; login now succeeds.
    assert_eq!(sys.confirm_registration(&token, now + 10), Ok(id));
    let jwt = sys.login(&login_data("ada@example.com", "pw1"), false, now + 20).unwrap();
    assert!(!jwt.is_empty());

    // The issued identity token passes the session guard.
    assert!(sys.require_session(&jwt, now + 30).is_ok());
}

#[test]
fn registration_rejects_taken_email() {
    let mut sys = fresh_system();
    registered_verified(&mut sys, "ada@example.com", "pw1", 1000);
    assert_eq!(
        sys.begin_registration(&register_data("ada@example.com", "other"), 2000),
        Err(AuthError::EmailTaken)
    );
}

#[test]
fn registration_token_expires_after_one_hour() {
    let mut sys = fresh_system();
    let now: u64 = 1000;
    let (_, token) = sys
        .begin_registration(&register_data("ada@example.com", "pw1"), now)
        .unwrap();
    // One second past the one-hour window.
    assert_eq!(sys.confirm_registration(&token, now + 3601), Err(AuthError::Expired));
    // The stale record was discarded with the failure.
    assert_eq!(sys.confirm_registration(&token, now + 3602), Err(AuthError::TokenNotFound));
}

#[test]
fn registration_token_at_exact_expiry_still_works() {
    let mut sys = fresh_system();
    let now: u64 = 1000;
    let (id, token) = sys
        .begin_registration(&register_data("ada@example.com", "pw1"), now)
        .unwrap();
    assert_eq!(sys.confirm_registration(&token, now + 3600), Ok(id));
}

#[test]
fn login_unknown_email_and_wrong_password() {
    let mut sys = fresh_system();
    let now: u64 = 1000;
    registered_verified(&mut sys, "ada@example.com", "pw1", now);
    assert_eq!(
        sys.login(&login_data("nobody@example.com", "pw1"), false, now),
        Err(AuthError::UserNotFound)
    );
    assert_eq!(
        sys.login(&login_data("ada@example.com", "wrong"), false, now),
        Err(AuthError::WrongPassword)
    );
}

#[test]
fn login_blocked_while_paused_for_non_admin() {
    let mut sys = fresh_system();
    let now: u64 = 1000;
    registered_verified(&mut sys, "ada@example.com", "pw1", now);
    assert_eq!(
        sys.login(&login_data("ada@example.com", "pw1"), true, now),
        Err(AuthError::GamePaused)
    );
    // Unpaused, the same credentials pass.
    assert!(sys.login(&login_data("ada@example.com", "pw1"), false, now).is_ok());
}

#[test]
fn session_cap_rejects_the_thirty_third_login() {
    let mut sys = fresh_system();
    let now: u64 = 1000;
    registered_verified(&mut sys, "ada@example.com", "pw1", now);
    let mut jwts = Vec::new();
    for k in 0..32u64 {
        jwts.push(sys.login(&login_data("ada@example.com", "pw1"), false, now + k).unwrap());
    }
    // The cap is reached: the next login is refused ...
    assert_eq!(
        sys.login(&login_data("ada@example.com", "pw1"), false, now + 100),
        Err(AuthError::SessionLimitExceeded)
    );
    // ... and none of the 32 existing sessions was invalidated by it.
    for jwt in &jwts {
        assert!(sys.require_session(jwt, now + 200).is_ok());
    }
}

#[test]
fn logout_is_single_use() {
    let mut sys = fresh_system();
    let now: u64 = 1000;
    registered_verified(&mut sys, "ada@example.com", "pw1", now);
    let jwt = sys.login(&login_data("ada@example.com", "pw1"), false, now).unwrap();
    let data = LogoutData { jwt: jwt.clone() };
    assert_eq!(sys.logout(&data, now + 1), Ok(()));
    // The session is gone; the still-valid token no longer names one.
    assert_eq!(sys.logout(&data, now + 2), Err(AuthError::SessionNotFound));
}

#[test]
fn logout_rejects_garbage_and_expired_tokens() {
    let mut sys = fresh_system();
    let now: u64 = 1000;
    registered_verified(&mut sys, "ada@example.com", "pw1", now);
    assert_eq!(
        sys.logout(&LogoutData { jwt: "not-a-token".to_string() }, now),
        Err(AuthError::InvalidToken)
    );
    let jwt = sys.login(&login_data("ada@example.com", "pw1"), false, now).unwrap();
    // Past the identity token's own 14-day expiry.
    assert_eq!(
        sys.logout(&LogoutData { jwt }, now + 1209601),
        Err(AuthError::InvalidToken)
    );
}

#[test]
fn password_reset_round_trip_revokes_sessions() {
    let mut sys = fresh_system();
    let now: u64 = 1000;
    registered_verified(&mut sys, "ada@example.com", "oldpw", now);
    let jwt = sys.login(&login_data("ada@example.com", "oldpw"), false, now).unwrap();

    let reset = ResetData {
        email: "ada@example.com".to_string(),
        plaintext_password: "newpw".to_string(),
    };
    let t1 = sys.begin_password_reset(&reset, false, now).unwrap();

    // Confirming after the five-minute window fails with the precise reason.
    assert_eq!(sys.confirm_password_reset(&t1, now + 301), Err(AuthError::Expired));

    // A new request succeeds (the stale record is gone) and its token,
    // presented in time, applies the new password.
    let t2 = sys.begin_password_reset(&reset, false, now + 400).unwrap();
    let uid = sys.confirm_password_reset(&t2, now + 500).unwrap();
    assert_eq!(uid, 1);

    // Every session of the account is gone: the old identity token now
    // fails the guard with SessionNotFound.
    assert_eq!(
        sys.logout(&LogoutData { jwt }, now + 600),
        Err(AuthError::SessionNotFound)
    );

    // The old password no longer verifies; the new one does.
    assert_eq!(
        sys.login(&login_data("ada@example.com", "oldpw"), false, now + 700),
        Err(AuthError::WrongPassword)
    );
    assert!(sys.login(&login_data("ada@example.com", "newpw"), false, now + 700).is_ok());
}

#[test]
fn password_reset_paused_and_unknown_user() {
    let mut sys = fresh_system();
    let now: u64 = 1000;
    registered_verified(&mut sys, "ada@example.com", "pw1", now);
    let reset = ResetData {
        email: "ada@example.com".to_string(),
        plaintext_password: "x".to_string(),
    };
    assert_eq!(sys.begin_password_reset(&reset, true, now), Err(AuthError::GamePaused));
    let unknown = ResetData {
        email: "nobody@example.com".to_string(),
        plaintext_password: "x".to_string(),
    };
    assert_eq!(sys.begin_password_reset(&unknown, false, now), Err(AuthError::UserNotFound));
}

#[test]
fn single_active_pending_change() {
    let mut sys = fresh_system();
    let now: u64 = 1000;
    registered_verified(&mut sys, "ada@example.com", "pw1", now);
    let reset = ResetData {
        email: "ada@example.com".to_string(),
        plaintext_password: "x".to_string(),
    };
    assert!(sys.begin_password_reset(&reset, false, now).is_ok());
    // A second request while the first is live is refused.
    assert_eq!(
        sys.begin_password_reset(&reset, false, now + 10),
        Err(AuthError::AlreadyInProgress)
    );
}

#[test]
fn expiry_reclaims_the_stale_record() {
    let mut sys = fresh_system();
    let now: u64 = 1000;
    registered_verified(&mut sys, "ada@example.com", "pw1", now);
    let reset = ResetData {
        email: "ada@example.com".to_string(),
        plaintext_password: "x".to_string(),
    };
    assert!(sys.begin_password_reset(&reset, false, now).is_ok());
    // Once the five minutes passed, a new request replaces the stale record.
    assert!(sys.begin_password_reset(&reset, false, now + 301).is_ok());
}

#[test]
fn confirm_is_single_use() {
    let mut sys = fresh_system();
    let now: u64 = 1000;
    registered_verified(&mut sys, "ada@example.com", "pw1", now);
    let reset = ResetData {
        email: "ada@example.com".to_string(),
        plaintext_password: "new".to_string(),
    };
    let t = sys.begin_password_reset(&reset, false, now).unwrap();
    assert!(sys.confirm_password_reset(&t, now + 10).is_ok());
    assert_eq!(sys.confirm_password_reset(&t, now + 20), Err(AuthError::TokenNotFound));
}

#[test]
fn email_change_round_trip() {
    let mut sys = fresh_system();
    let now: u64 = 1000;
    registered_verified(&mut sys, "ada@example.com", "pw1", now);
    let jwt = sys.login(&login_data("ada@example.com", "pw1"), false, now).unwrap();

    let t = sys.begin_email_change(&jwt, "new@example.com", now).unwrap();
    // Two interleaved requests for the same user: at most one live record
    // ever exists, the second request is refused.
    assert_eq!(
        sys.begin_email_change(&jwt, "other@example.com", now + 1),
        Err(AuthError::AlreadyInProgress)
    );

    let uid = sys.confirm_email_change(&t, now + 10).unwrap();
    assert_eq!(uid, 1);

    // Sessions are revoked by the credential change.
    assert_eq!(
        sys.logout(&LogoutData { jwt }, now + 20),
        Err(AuthError::SessionNotFound)
    );

    // The account answers under the new address only.
    assert_eq!(
        sys.login(&login_data("ada@example.com", "pw1"), false, now + 30),
        Err(AuthError::UserNotFound)
    );
    assert!(sys.login(&login_data("new@example.com", "pw1"), false, now + 30).is_ok());
}

#[test]
fn email_change_requires_a_session() {
    let mut sys = fresh_system();
    assert_eq!(
        sys.begin_email_change("garbage", "new@example.com", 1000),
        Err(AuthError::InvalidToken)
    );
}

#[test]
fn account_deletion_round_trip() {
    let mut sys = fresh_system();
    let now: u64 = 1000;
    let id = registered_verified(&mut sys, "ada@example.com", "pw1", now);
    let jwt = sys.login(&login_data("ada@example.com", "pw1"), false, now).unwrap();

    let del = DeleteData { email: "ada@example.com".to_string() };
    let t = sys.begin_account_deletion(&del, now).unwrap();
    assert_eq!(
        sys.begin_account_deletion(&del, now + 1),
        Err(AuthError::AlreadyInProgress)
    );
    assert_eq!(sys.confirm_account_deletion(&t, now + 10), Ok(id));

    // The account is gone, and so are its sessions.
    assert!(sys.user_retrieve_id(&RetrieveUserIdData { account_id: id }).is_err());
    assert_eq!(
        sys.login(&login_data("ada@example.com", "pw1"), false, now + 20),
        Err(AuthError::UserNotFound)
    );
    assert_eq!(
        sys.logout(&LogoutData { jwt }, now + 20),
        Err(AuthError::SessionNotFound)
    );
}

#[test]
fn account_deletion_expires() {
    let mut sys = fresh_system();
    let now: u64 = 1000;
    registered_verified(&mut sys, "ada@example.com", "pw1", now);
    let del = DeleteData { email: "ada@example.com".to_string() };
    let t = sys.begin_account_deletion(&del, now).unwrap();
    assert_eq!(sys.confirm_account_deletion(&t, now + 301), Err(AuthError::Expired));
    // The account survives an expired deletion request.
    assert!(sys.user_retrieve_id(&RetrieveUserIdData { account_id: 1 }).is_ok());
}

#[test]
fn resend_verification_throttles_and_rotates() {
    let mut sys = fresh_system();
    let now: u64 = 1000;
    let (id, t1) = sys
        .begin_registration(&register_data("ada@example.com", "pw1"), now)
        .unwrap();
    // Within the minute: refused.
    assert_eq!(sys.resend_verification(id, now + 59), Err(AuthError::TooFast));
    // After the minute: a fresh token; the old one is dead.
    let t2 = sys.resend_verification(id, now + 60).unwrap();
    assert_eq!(sys.confirm_registration(&t1, now + 70), Err(AuthError::TokenNotFound));
    assert_eq!(sys.confirm_registration(&t2, now + 70), Ok(id));
    // With no pending record left, a resend reports it missing.
    assert_eq!(sys.resend_verification(id, now + 200), Err(AuthError::TokenNotFound));
    // And for an unknown account it reports the account.
    assert_eq!(sys.resend_verification(999, now + 200), Err(AuthError::UserNotFound));
}

#[test]
fn change_password_immediate_self_and_forbidden() {
    let mut sys = fresh_system();
    let now: u64 = 1000;
    let ada = registered_verified(&mut sys, "ada@example.com", "pw1", now);
    let bob = registered_verified(&mut sys, "bob@example.com", "pw2", now);
    let jwt = sys.login(&login_data("ada@example.com", "pw1"), false, now).unwrap();

    // A non-administrator may not touch another account.
    let attack = SimpleModifyData {
        jwt: jwt.clone(),
        new_value: "stolen".to_string(),
        account_id: bob,
    };
    assert_eq!(
        sys.change_password_immediate(&attack, false, now),
        Err(AuthError::Forbidden)
    );

    // Changing one's own password works and revokes one's sessions.
    let own = SimpleModifyData {
        jwt: jwt.clone(),
        new_value: "pw1b".to_string(),
        account_id: ada,
    };
    assert_eq!(sys.change_password_immediate(&own, false, now), Ok(()));
    assert_eq!(
        sys.logout(&LogoutData { jwt }, now + 1),
        Err(AuthError::SessionNotFound)
    );
    assert_eq!(
        sys.login(&login_data("ada@example.com", "pw1"), false, now + 2),
        Err(AuthError::WrongPassword)
    );
    assert!(sys.login(&login_data("ada@example.com", "pw1b"), false, now + 2).is_ok());
    // While paused, a non-administrator is blocked even on their own account.
    let jwt2 = sys.login(&login_data("ada@example.com", "pw1b"), false, now + 3).unwrap();
    let paused_try = SimpleModifyData { jwt: jwt2, new_value: "x".to_string(), account_id: ada };
    assert_eq!(
        sys.change_password_immediate(&paused_try, true, now + 4),
        Err(AuthError::GamePaused)
    );
}

#[test]
fn configuration_error_on_unusable_secret() {
    // Not valid base64: issuing any identity token is a configuration
    // error, surfaced at the first login.
    let mut sys = AuthSystem::new("%%%not-base64%%%".to_string());
    let now: u64 = 1000;
    registered_verified(&mut sys, "ada@example.com", "pw1", now);
    assert_eq!(
        sys.login(&login_data("ada@example.com", "pw1"), false, now),
        Err(AuthError::ConfigurationError)
    );
}

#[test]
fn tokens_are_opaque_and_distinct() {
    let mut sys = fresh_system();
    let now: u64 = 1000;
    let (_, t1) = sys
        .begin_registration(&register_data("ada@example.com", "pw1"), now)
        .unwrap();
    let (_, t2) = sys
        .begin_registration(&register_data("bob@example.com", "pw2"), now)
        .unwrap();
    assert_eq!(t1.len(), 36);
    assert_eq!(t2.len(), 36);
    assert_ne!(t1, t2);
}
