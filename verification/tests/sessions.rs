use storefront_core::account::Session;
use storefront_core::clock::Date;
use storefront_core::error::AuthError;
use storefront_core::store::{AuthConfig, AuthStore};

fn store_with_alice() -> AuthStore {
    let mut store = AuthStore::new(AuthConfig::default());
    let made = store.create_account("alice", "pw1", Date::new(2099, 1, 1), "add-product");
    assert_eq!(made, Ok(()));
    store
}

#[test]
fn login_then_authorize() {
    let mut store = store_with_alice();
    let session = store.login("alice", "pw1").expect("login succeeds");
    assert_eq!(session.token.chars().count(), 36);
    assert_eq!(store.authorize(&session.token, "add-product"), Ok("alice".to_string()));
    assert_eq!(store.authorize(&session.token, "delete-admin"), Err(AuthError::Forbidden));
    assert_eq!(store.authorize(&session.token, "add-product"), Ok("alice".to_string()));
}

#[test]
fn wrong_password_changes_nothing() {
    let mut store = store_with_alice();
    assert_eq!(store.login("alice", "wrongpw"), Err(AuthError::InvalidCredentials));
    assert_eq!(store.account("alice").unwrap().session, None);

    let session = store.login("alice", "pw1").unwrap();
    assert_eq!(store.login("alice", "wrongpw"), Err(AuthError::InvalidCredentials));
    assert_eq!(store.account("alice").unwrap().session, Some(session));
}

#[test]
fn expired_account_is_removed() {
    let mut store = AuthStore::new(AuthConfig::default());
    store.create_account("bob", "secret", Date::new(2000, 1, 1), "admin").unwrap();
    assert!(store.account("bob").is_some());
    assert_eq!(store.login("bob", "anything"), Err(AuthError::AccountExpired));
    assert_eq!(store.account("bob"), None);
    assert_eq!(store.login("bob", "secret"), Err(AuthError::AccountNotFound));
}

#[test]
fn expired_token_is_cleared() {
    let mut store = store_with_alice();
    let session = store.login("alice", "pw1").unwrap();
    assert!(store.set_token_expiration("alice", 1));
    assert_eq!(store.authorize(&session.token, "any"), Err(AuthError::TokenExpired));
    assert_eq!(store.account("alice").unwrap().session, None);
    assert_eq!(store.authorize(&session.token, "any"), Err(AuthError::UnknownToken));
}

#[test]
fn token_that_ends_now_has_expired() {
    let mut store = store_with_alice();
    let day = Date::new(2024, 5, 17);
    let session = store.login_at("alice", "pw1", day, 1_000, "t-1".to_string()).unwrap();
    assert_eq!(session, Session { token: "t-1".to_string(), expires_at: 1_300 });
    assert_eq!(store.authorize_at("t-1", "add-product", 1_299), Ok("alice".to_string()));
    assert_eq!(store.authorize_at("t-1", "add-product", 1_300), Err(AuthError::TokenExpired));
    assert_eq!(store.authorize_at("t-1", "add-product", 1_299), Err(AuthError::UnknownToken));
}

#[test]
fn expiry_is_checked_before_capability() {
    let mut store = store_with_alice();
    store.login_at("alice", "pw1", Date::new(2024, 5, 17), 0, "t".to_string()).unwrap();
    assert_eq!(store.authorize_at("t", "delete-admin", 300), Err(AuthError::TokenExpired));
    assert_eq!(store.account("alice").unwrap().session, None);
}

#[test]
fn logout_twice_is_silent() {
    let mut store = store_with_alice();
    let session = store.login("alice", "pw1").unwrap();
    store.logout(&session.token);
    assert_eq!(store.account("alice").unwrap().session, None);
    assert_eq!(store.current_user(&session.token), None);
    store.logout(&session.token);
    assert_eq!(store.account("alice").unwrap().session, None);
    store.logout("never issued");
    assert_eq!(store.authorize(&session.token, "add-product"), Err(AuthError::UnknownToken));
}

#[test]
fn empty_token_is_no_token() {
    let mut store = store_with_alice();
    assert_eq!(store.authorize("", "add-product"), Err(AuthError::NoToken));
    assert_eq!(store.authorize_at("", "add-product", 5), Err(AuthError::NoToken));
    assert_eq!(store.authorize("nobody-has-this", "add-product"), Err(AuthError::UnknownToken));
}

#[test]
fn duplicate_account_is_refused() {
    let mut store = store_with_alice();
    let before = store.account("alice").unwrap();
    assert_eq!(
        store.create_account("alice", "other", Date::new(2030, 1, 1), "admin"),
        Err(AuthError::DuplicateAccount)
    );
    assert_eq!(store.account("alice").unwrap(), before);
    assert_eq!(store.create_account("Alice", "other", Date::new(2030, 1, 1), "admin"), Ok(()));
    assert_eq!(store.usernames(), vec!["alice".to_string(), "Alice".to_string()]);
}

#[test]
fn new_account_has_salted_digest_and_no_session() {
    let mut store = AuthStore::new(AuthConfig { token_ttl: 60, salt_length: 12 });
    store.create_account("carol", "pw", Date::new(2099, 1, 1), "admin").unwrap();
    let carol = store.account("carol").unwrap();
    assert_eq!(carol.session, None);
    assert_eq!(carol.salt.len(), 12);
    assert!(carol.salt.chars().all(|c| c.is_ascii_alphanumeric()));
    assert_eq!(carol.password_digest, storefront_core::digest::hash("pw", &carol.salt));
    assert_eq!(store.config(), AuthConfig { token_ttl: 60, salt_length: 12 });
}

#[test]
fn create_with_given_salt_stores_exact_digest() {
    let mut store = AuthStore::new(AuthConfig::default());
    let made = store.create_account_with_salt(
        "alice",
        "pw1",
        Date::new(2099, 1, 1),
        "add-product",
        "salt".to_string(),
    );
    assert_eq!(made, Ok(()));
    let alice = store.account("alice").unwrap();
    assert_eq!(
        alice.password_digest,
        "bdb835c2dfe825d07015a179d5414c62a2a21c9dda5b94cfa4cc957b02bbcdd0"
    );
    assert_eq!(alice.salt, "salt");
    assert_eq!(alice.expiration, Date::new(2099, 1, 1));
}

#[test]
fn login_on_last_valid_day_succeeds() {
    let mut store = store_with_alice();
    let last = Date::new(2099, 1, 1);
    assert!(store.login_at("alice", "pw1", last, 10, "a".to_string()).is_ok());
    let next = Date::new(2099, 1, 2);
    assert_eq!(
        store.login_at("alice", "pw1", next, 10, "b".to_string()),
        Err(AuthError::AccountExpired)
    );
    assert_eq!(store.account("alice"), None);
}

#[test]
fn relogin_replaces_the_token() {
    let mut store = store_with_alice();
    let day = Date::new(2024, 1, 1);
    store.login_at("alice", "pw1", day, 100, "first".to_string()).unwrap();
    store.login_at("alice", "pw1", day, 200, "second".to_string()).unwrap();
    assert_eq!(store.authorize_at("first", "add-product", 201), Err(AuthError::UnknownToken));
    assert_eq!(store.authorize_at("second", "add-product", 201), Ok("alice".to_string()));
    assert_eq!(store.current_user("second"), Some("alice".to_string()));
}

#[test]
fn token_of_another_account_is_refused() {
    let mut store = store_with_alice();
    store.create_account("dave", "pw2", Date::new(2099, 1, 1), "admin").unwrap();
    let day = Date::new(2024, 1, 1);
    store.login_at("alice", "pw1", day, 100, "shared".to_string()).unwrap();
    assert_eq!(
        store.login_at("dave", "pw2", day, 100, "shared".to_string()),
        Err(AuthError::StorageFailure)
    );
    assert_eq!(store.account("dave").unwrap().session, None);
    assert!(store.login_at("alice", "pw1", day, 150, "shared".to_string()).is_ok());
}

#[test]
fn grants_outlive_a_deleted_account() {
    let mut store = store_with_alice();
    assert!(store.delete_account("alice"));
    assert!(!store.delete_account("alice"));
    store.create_account("alice", "new", Date::new(2099, 1, 1), "admin").unwrap();
    store.login_at("alice", "new", Date::new(2024, 1, 1), 0, "t".to_string()).unwrap();
    assert_eq!(store.authorize_at("t", "add-product", 1), Ok("alice".to_string()));
    assert_eq!(store.authorize_at("t", "admin", 1), Ok("alice".to_string()));
    assert_eq!(store.authorize_at("t", "Admin", 1), Err(AuthError::Forbidden));
}

#[test]
fn error_messages() {
    assert_eq!(AuthError::TokenExpired.message(), "Token has expired.");
    assert_eq!(AuthError::UnknownToken.message(), "Token does not exist.");
    assert_eq!(AuthError::Forbidden.message(), "User did not have correct permissions");
    assert_eq!(
        AuthError::AccountExpired.message(),
        "Admin account has expired and has been removed."
    );
    assert_eq!(AuthError::InvalidCredentials.message(), "Invalid username or password.");
    assert_eq!(AuthError::AccountNotFound.message(), "Invalid username or password.");
    assert_eq!(AuthError::NoToken.message(), "No valid token found.");
    assert_eq!(AuthError::UnrecognizedTag.message(), "Invalid tag name");
    assert_eq!(AuthError::StorageFailure.message(), "Database error");
    assert_eq!(
        AuthError::DuplicateAccount.message(),
        "An account with this username already exists."
    );
}
