use storefront_core::account::{Account, Credential, Grant, Session};
use storefront_core::action::Action;
use storefront_core::clock::Date;
use storefront_core::error::AuthError;
use storefront_core::policy::{
    decide_grant, decide_login, decide_login_now, decide_token, decide_token_now, has_grant,
    LoginStep, TokenStep,
};

fn alice() -> Account {
    Account::with_salt("alice", "pw1", Date::new(2099, 1, 1), "salt".to_string())
}

fn alice_with_session(expires_at: i64) -> Account {
    let mut account = alice();
    account.session = Some(Session { token: "tok".to_string(), expires_at });
    account
}

#[test]
fn date_parse_reads_year_month_day() {
    assert_eq!(Date::parse("2099-01-01"), Some(Date::new(2099, 1, 1)));
    assert_eq!(Date::parse("2000-02-29"), Some(Date::new(2000, 2, 29)));
    assert_eq!(Date::parse("2015-02-30"), None);
    assert_eq!(Date::parse("2015/02/03"), None);
    assert_eq!(Date::parse(""), None);
    assert_eq!(Date::parse("2015-09-05 10:00:00"), None);
}

#[test]
fn date_after_orders_by_year_month_day() {
    let day = Date::new(2024, 5, 17);
    assert!(!day.after(&day));
    assert!(Date::new(2024, 5, 18).after(&day));
    assert!(Date::new(2024, 6, 1).after(&day));
    assert!(Date::new(2025, 1, 1).after(&day));
    assert!(!Date::new(2024, 5, 16).after(&day));
    assert!(!Date::new(2023, 12, 31).after(&day));
    assert!(!Date::new(2024, 4, 30).after(&day));
}

#[test]
fn account_from_columns_reads_dates() {
    let account = Account::from_columns(
        "alice",
        "digest",
        "salt",
        "2099-01-01",
        Some("tok"),
        Some("2024-05-17 12:00:00"),
    )
    .unwrap();
    assert_eq!(account.username, "alice");
    assert_eq!(account.password_digest, "digest");
    assert_eq!(account.salt, "salt");
    assert_eq!(account.expiration, Date::new(2099, 1, 1));
    assert_eq!(
        account.session,
        Some(Session { token: "tok".to_string(), expires_at: 1_715_947_200 })
    );

    let plain = Account::from_columns("bob", "d", "s", "2000-01-01", None, None).unwrap();
    assert_eq!(plain.session, None);
    let stale = Account::from_columns("bob", "d", "s", "2000-01-01", None, Some("junk")).unwrap();
    assert_eq!(stale.session, None);
}

#[test]
fn account_from_columns_refuses_unreadable_rows() {
    assert_eq!(
        Account::from_columns("a", "d", "s", "next year", None, None),
        Err(AuthError::StorageFailure)
    );
    assert_eq!(
        Account::from_columns("a", "d", "s", "2099-01-01", Some("tok"), None),
        Err(AuthError::StorageFailure)
    );
    assert_eq!(
        Account::from_columns("a", "d", "s", "2099-01-01", Some("tok"), Some("2024-05-17T12:00:00Z")),
        Err(AuthError::StorageFailure)
    );
}

#[test]
fn session_expiry_text_is_read_back() {
    let session = Session { token: "t".to_string(), expires_at: 951_868_799 };
    assert_eq!(session.expiry_text(), Some("2000-02-29 23:59:59".to_string()));
    let early = Session { token: "t".to_string(), expires_at: 300 };
    assert_eq!(early.expiry_text(), Some("1970-01-01 00:05:00".to_string()));
    let never = Session { token: "t".to_string(), expires_at: i64::MAX };
    assert_eq!(never.expiry_text(), None);
    let back = Account::from_columns(
        "a",
        "d",
        "s",
        "2099-01-01",
        Some("t"),
        session.expiry_text().as_deref(),
    )
    .unwrap();
    assert_eq!(back.session, Some(session));
}

#[test]
fn account_create_draws_a_salt() {
    let first = Account::create("alice", "pw1", Date::new(2099, 1, 1), 16);
    let second = Account::create("alice", "pw1", Date::new(2099, 1, 1), 16);
    assert_eq!(first.salt.len(), 16);
    assert!(first.salt.chars().all(|c| c.is_ascii_alphanumeric()));
    assert_eq!(first.password_digest, storefront_core::digest::hash("pw1", &first.salt));
    assert_eq!(first.session, None);
    assert_ne!(first.salt, second.salt);
    assert_eq!(Account::create("x", "y", Date::new(2099, 1, 1), 0).salt, "");
    assert_eq!(
        alice().password_digest,
        "bdb835c2dfe825d07015a179d5414c62a2a21c9dda5b94cfa4cc957b02bbcdd0"
    );
    assert_eq!(alice().clone(), alice());
}

#[test]
fn decide_login_steps() {
    let day = Date::new(2024, 5, 17);
    assert_eq!(
        decide_login(None, "pw1", day, 0, 300, "t".to_string()),
        LoginStep::Refuse(AuthError::AccountNotFound)
    );
    let account = alice();
    assert_eq!(
        decide_login(Some(&account), "nope", day, 0, 300, "t".to_string()),
        LoginStep::Refuse(AuthError::InvalidCredentials)
    );
    assert_eq!(
        decide_login(Some(&account), "pw1", day, 1_000, 300, "t".to_string()),
        LoginStep::Issue(Session { token: "t".to_string(), expires_at: 1_300 })
    );
    assert_eq!(
        decide_login(Some(&account), "pw1", Date::new(2099, 1, 2), 0, 300, "t".to_string()),
        LoginStep::Remove
    );
    assert_eq!(
        decide_login(Some(&account), "nope", Date::new(2100, 1, 1), 0, 300, "t".to_string()),
        LoginStep::Remove
    );
}

#[test]
fn decide_login_now_issues_fresh_tokens() {
    let account = alice();
    let first = decide_login_now(Some(&account), "pw1", 300);
    let second = decide_login_now(Some(&account), "pw1", 300);
    match (first, second) {
        (LoginStep::Issue(a), LoginStep::Issue(b)) => {
            assert_eq!(a.token.len(), 36);
            assert_ne!(a.token, b.token);
            assert!(a.expires_at > 1_700_000_000);
            assert!(b.expires_at >= a.expires_at);
        }
        other => panic!("unexpected steps {:?}", other),
    }
    assert_eq!(
        decide_login_now(Some(&account), "bad", 300),
        LoginStep::Refuse(AuthError::InvalidCredentials)
    );
    assert_eq!(decide_login_now(None, "pw1", 300), LoginStep::Refuse(AuthError::AccountNotFound));
}

#[test]
fn decide_token_steps() {
    let live = alice_with_session(500);
    assert_eq!(decide_token("", Some(&live), 0), TokenStep::Refuse(AuthError::NoToken));
    assert_eq!(decide_token("tok", None, 0), TokenStep::Refuse(AuthError::UnknownToken));
    assert_eq!(decide_token("tok", Some(&alice()), 0), TokenStep::Refuse(AuthError::UnknownToken));
    assert_eq!(decide_token("other", Some(&live), 0), TokenStep::Refuse(AuthError::UnknownToken));
    assert_eq!(decide_token("tok", Some(&live), 499), TokenStep::Live("alice".to_string()));
    assert_eq!(decide_token("tok", Some(&live), 500), TokenStep::Clear);
    assert_eq!(decide_token("tok", Some(&live), 501), TokenStep::Clear);
    assert_eq!(decide_token_now("tok", Some(&live)), TokenStep::Clear);
    let far = alice_with_session(i64::MAX);
    assert_eq!(decide_token_now("tok", Some(&far)), TokenStep::Live("alice".to_string()));
    assert_eq!(decide_token_now("", Some(&far)), TokenStep::Refuse(AuthError::NoToken));
}

#[test]
fn grants_match_exactly() {
    let grants = vec![
        Grant { username: "alice".to_string(), capability: "addproduct".to_string() },
        Grant { username: "bob".to_string(), capability: "admin".to_string() },
    ];
    assert!(has_grant(&grants, "alice", "addproduct"));
    assert!(!has_grant(&grants, "alice", "admin"));
    assert!(!has_grant(&grants, "alice", "addproduc"));
    assert!(!has_grant(&grants, "alice", "AddProduct"));
    assert!(!has_grant(&grants, "bob", "addproduct"));
    assert!(!has_grant(&Vec::new(), "alice", "addproduct"));
    assert_eq!(
        decide_grant(&grants, "alice".to_string(), "addproduct"),
        Ok("alice".to_string())
    );
    assert_eq!(decide_grant(&grants, "alice".to_string(), "admin"), Err(AuthError::Forbidden));
    assert_eq!(grants[0].clone(), grants[0]);
}

#[test]
fn action_capabilities() {
    assert_eq!(Action::OpenAdminMenu.capability(), "admin");
    assert_eq!(Action::CreateAdmin.capability(), "admincreate");
    assert_eq!(Action::ListAdmins.capability(), "adminlist");
    assert_eq!(Action::DeleteAdmin.capability(), "admindelete");
    assert_eq!(Action::AddProduct.capability(), "addproduct");
    assert_eq!(Action::UpdateProduct.capability(), "updateproduct");
    assert_eq!(Action::RemoveProduct.capability(), "removeproduct");
    assert_eq!(Action::AddVariant.capability(), "addvariant");
    assert_eq!(Action::UpdateVariant.capability(), "updatevariant");
    assert_eq!(Action::UpdateWebsiteInfo.capability(), "websiteinfo");
    assert_eq!(Action::UploadImage.capability(), "image");
    assert_eq!(Action::ViewCustomers.capability(), "customer");
}

#[test]
fn fresh_credential_has_salt_and_digest() {
    let first = Credential::fresh("pw1", 16);
    let second = Credential::fresh("pw1", 16);
    assert_eq!(first.salt.len(), 16);
    assert!(first.salt.chars().all(|c| c.is_ascii_alphanumeric()));
    assert_eq!(first.password_digest, storefront_core::digest::hash("pw1", &first.salt));
    assert_eq!(first.password_digest.len(), 64);
    assert_ne!(first.salt, second.salt);
    assert_ne!(first.password_digest, second.password_digest);
}
