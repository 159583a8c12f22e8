//! Profile mutation and account retrieval through the guarded surface.

use wiedzieliscie_backend::accounts::ProfileField;
use wiedzieliscie_backend::system::{
    AuthSystem, LoginData, RegisterData, RetrieveUserData, RetrieveUserEmailData,
    RetrieveUserIdData, RetrieveUserNamesData,
};
use wiedzieliscie_backend::AuthError;

const SECRET: &str = "c2VjcmV0";

fn system_with_ada() -> (AuthSystem, u32, String) {
    let mut sys = AuthSystem::new(SECRET.to_string());
    let reg = RegisterData {
        email: "ada@example.com".to_string(),
        plaintext_password: "pw1".to_string(),
        first_name: "Ada".to_string(),
        last_name: "Lovelace".to_string(),
        gender: 'f',
    };
    let (id, token) = sys.begin_registration(&reg, 1000).unwrap();
    sys.confirm_registration(&token, 1000).unwrap();
    let login = LoginData {
        email: "ada@example.com".to_string(),
        plaintext_password: "pw1".to_string(),
    };
    let jwt = sys.login(&login, false, 1000).unwrap();
    (sys, id, jwt)
}

#[test]
fn retrieve_own_account() {
    let (sys, id, jwt) = system_with_ada();
    let me = sys.retrieve_user(&RetrieveUserData { jwt }, 1001).unwrap();
    assert_eq!(me.user_id, id);
    assert_eq!(me.email, "ada@example.com");
    assert_eq!(me.first_name, "Ada");
    assert_eq!(me.last_name, "Lovelace");
    assert!(!me.gender);
    assert!(me.verified);
    assert!(!me.admin);
}

#[test]
fn retrieve_requires_valid_token() {
    let (sys, _, _) = system_with_ada();
    let r = sys.retrieve_user(&RetrieveUserData { jwt: "junk".to_string() }, 1001);
    assert!(matches!(r, Err(AuthError::InvalidToken)));
}

#[test]
fn retrieve_by_email_id_and_name() {
    let (sys, id, _) = system_with_ada();
    let by_email = sys
        .user_retrieve_email(&RetrieveUserEmailData { email: "ada@example.com".to_string() })
        .unwrap();
    assert_eq!(by_email.user_id, id);
    let by_id = sys.user_retrieve_id(&RetrieveUserIdData { account_id: id }).unwrap();
    assert_eq!(by_id.email, "ada@example.com");
    let by_name = sys
        .user_retrieve_name(
            &RetrieveUserNamesData {
                first_name: "Ada".to_string(),
                last_name: "Lovelace".to_string(),
            },
        )
        .unwrap();
    assert_eq!(by_name.user_id, id);

    assert!(
        sys.user_retrieve_email(
            &RetrieveUserEmailData { email: "nobody@example.com".to_string() },
        ).is_err()
    );
    assert!(sys.user_retrieve_id(&RetrieveUserIdData { account_id: 999 }).is_err());
    assert_eq!(sys.user_retrieve_count(), 1);
}

#[test]
fn update_profile_fields() {
    let (mut sys, id, jwt) = system_with_ada();
    assert_eq!(
        sys.update_profile(&jwt, id, ProfileField::FirstName("Augusta".to_string()), false, 1001),
        Ok(())
    );
    assert_eq!(
        sys.update_profile(&jwt, id, ProfileField::LastName("King".to_string()), false, 1002),
        Ok(())
    );
    assert_eq!(sys.update_profile(&jwt, id, ProfileField::Gender(true), false, 1003), Ok(()));
    let me = sys.user_retrieve_id(&RetrieveUserIdData { account_id: id }).unwrap();
    assert_eq!(me.first_name, "Augusta");
    assert_eq!(me.last_name, "King");
    assert!(me.gender);
}

#[test]
fn update_profile_guards() {
    let (mut sys, id, jwt) = system_with_ada();
    // Another account may not be touched by a non-administrator.
    let reg = RegisterData {
        email: "bob@example.com".to_string(),
        plaintext_password: "pw2".to_string(),
        first_name: "Bob".to_string(),
        last_name: "Builder".to_string(),
        gender: 'm',
    };
    let (bob, t) = sys.begin_registration(&reg, 1000).unwrap();
    sys.confirm_registration(&t, 1000).unwrap();
    assert_eq!(
        sys.update_profile(&jwt, bob, ProfileField::Gender(false), false, 1001),
        Err(AuthError::Forbidden)
    );
    // While paused, a non-administrator is blocked.
    assert_eq!(
        sys.update_profile(&jwt, id, ProfileField::Gender(false), true, 1001),
        Err(AuthError::GamePaused)
    );
    // A broken token never passes.
    assert_eq!(
        sys.update_profile("junk", id, ProfileField::Gender(false), false, 1001),
        Err(AuthError::InvalidToken)
    );
}

#[test]
fn admin_guard_rejects_ordinary_users() {
    let (sys, _, jwt) = system_with_ada();
    assert!(matches!(sys.require_admin(&jwt, 1001), Err(AuthError::NotAdmin)));
    assert!(matches!(sys.require_admin("junk", 1001), Err(AuthError::InvalidToken)));
}
