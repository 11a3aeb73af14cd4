//! Accounts, their sessions and their grants.

use vstd::prelude::*;
use crate::clock::{date_in, parse_date, parse_second, second_in, second_text, text_of_second, Date};
use crate::digest::{hash, password_digest};
use crate::error::AuthError;
use crate::secret::{all_alphanumeric, random_salt};

verus! {

/// A session: the token handed out at login and the second at which it ends.
#[derive(Debug, PartialEq, Eq)]
pub struct Session {
    pub token: String,
    pub expires_at: i64,
}

/// A `Session` as a mathematical value.
pub struct SessionView {
    pub token: Seq<char>,
    pub expires_at: int,
}

impl View for Session {
    type V = SessionView;

    open spec fn view(&self) -> SessionView {
        SessionView { token: self.token@, expires_at: self.expires_at as int }
    }
}

impl Clone for Session {
    fn clone(&self) -> (copy: Session)
        ensures
            copy@ == self@,
    {
        Session { token: self.token.clone(), expires_at: self.expires_at }
    }
}

impl Session {
    /// The end of the session as text, in the form in which `from_columns`
    /// reads it. There is none for a second that no calendar year holds.
    pub fn expiry_text(&self) -> (text: Option<String>)
        ensures
            match text {
                Some(t) => text_of_second(self.expires_at as int) == Some(t@),
                None => text_of_second(self.expires_at as int) is None,
            },
    {
        second_text(self.expires_at)
    }
}

/// The view of a session that may be absent.
pub open spec fn session_view(session: Option<Session>) -> Option<SessionView> {
    match session {
        Some(s) => Some(s@),
        None => None,
    }
}

/// An administrative user.
#[derive(Debug, PartialEq, Eq)]
pub struct Account {
    pub username: String,
    pub password_digest: String,
    pub salt: String,
    /// The last day on which the account is valid.
    pub expiration: Date,
    /// The session that the last login opened, until logout or expiry.
    pub session: Option<Session>,
}

/// An `Account` as a mathematical value.
pub struct AccountView {
    pub username: Seq<char>,
    pub password_digest: Seq<char>,
    pub salt: Seq<char>,
    pub expiration: Date,
    pub session: Option<SessionView>,
}

impl View for Account {
    type V = AccountView;

    open spec fn view(&self) -> AccountView {
        AccountView {
            username: self.username@,
            password_digest: self.password_digest@,
            salt: self.salt@,
            expiration: self.expiration,
            session: session_view(self.session),
        }
    }
}

impl Clone for Account {
    fn clone(&self) -> (copy: Account)
        ensures
            copy@ == self@,
    {
        let session = match &self.session {
            Some(s) => Some(s.clone()),
            None => None,
        };
        Account {
            username: self.username.clone(),
            password_digest: self.password_digest.clone(),
            salt: self.salt.clone(),
            expiration: self.expiration,
            session,
        }
    }
}

/// What is stored in place of a password: a salt and the digest of the
/// password under it.
#[derive(Debug, PartialEq, Eq)]
pub struct Credential {
    pub salt: String,
    pub password_digest: String,
}

impl Credential {
    /// Draws a fresh random salt of `salt_length` letters and digits and
    /// computes the digest of `password` under it.
    pub fn fresh(password: &str, salt_length: usize) -> (credential: Credential)
        ensures
            credential.salt@.len() == salt_length,
            all_alphanumeric(credential.salt@),
            credential.password_digest@ == password_digest(password@, credential.salt@),
            credential.password_digest@.len() == 64,
    {
        let salt = random_salt(salt_length);
        let password_digest = hash(password, salt.as_str());
        Credential { salt, password_digest }
    }
}

/// The view of a text that may be absent.
pub open spec fn text_view(text: Option<&str>) -> Option<Seq<char>> {
    match text {
        Some(t) => Some(t@),
        None => None,
    }
}

/// The session that two stored columns hold: none without a token; the token
/// with the second that its expiration reads as; a failure where a token
/// stands without an expiration that can be read.
pub open spec fn stored_session(token: Option<Seq<char>>, token_expiration: Option<Seq<char>>)
    -> Result<Option<SessionView>, AuthError> {
    match token {
        None => Ok(None),
        Some(t) => match token_expiration {
            None => Err(AuthError::StorageFailure),
            Some(e) => match second_in(e) {
                None => Err(AuthError::StorageFailure),
                Some(second) => Ok(Some(SessionView { token: t, expires_at: second })),
            },
        },
    }
}

/// The account that six stored columns hold, or a failure where the
/// expiration date or the session cannot be read.
pub open spec fn stored_account(
    username: Seq<char>,
    password_digest: Seq<char>,
    salt: Seq<char>,
    expiration: Seq<char>,
    token: Option<Seq<char>>,
    token_expiration: Option<Seq<char>>,
) -> Result<AccountView, AuthError> {
    match date_in(expiration) {
        None => Err(AuthError::StorageFailure),
        Some((year, month, day)) => match stored_session(token, token_expiration) {
            Err(e) => Err(e),
            Ok(session) => Ok(
                AccountView {
                    username,
                    password_digest,
                    salt,
                    expiration: Date { year: year as i32, month: month as u32, day: day as u32 },
                    session,
                },
            ),
        },
    }
}

/// The view of an account or of the failure to make one.
pub open spec fn account_result(made: Result<Account, AuthError>) -> Result<AccountView, AuthError> {
    match made {
        Ok(a) => Ok(a@),
        Err(e) => Err(e),
    }
}

impl Account {
    /// An account without a session, with the digest of `password` under
    /// `salt`.
    pub fn with_salt(username: &str, password: &str, expiration: Date, salt: String) -> (account:
        Account)
        ensures
            account@ == (AccountView {
                username: username@,
                password_digest: password_digest(password@, salt@),
                salt: salt@,
                expiration,
                session: None,
            }),
            account@.password_digest.len() == 64,
    {
        let password_digest = hash(password, salt.as_str());
        Account { username: username.to_owned(), password_digest, salt, expiration, session: None }
    }

    /// An account without a session, under a fresh random salt of
    /// `salt_length` letters and digits.
    pub fn create(username: &str, password: &str, expiration: Date, salt_length: usize) -> (account:
        Account)
        ensures
            account@.username == username@,
            account@.salt.len() == salt_length,
            all_alphanumeric(account@.salt),
            account@.password_digest == password_digest(password@, account@.salt),
            account@.password_digest.len() == 64,
            account@.expiration == expiration,
            account@.session is None,
    {
        let credential = Credential::fresh(password, salt_length);
        Account {
            username: username.to_owned(),
            password_digest: credential.password_digest,
            salt: credential.salt,
            expiration,
            session: None,
        }
    }

    /// Reads an account from its stored columns: the expiration date in the
    /// form `%Y-%m-%d`, the end of the session in the form
    /// `%Y-%m-%d %H:%M:%S`.
    pub fn from_columns(
        username: &str,
        password_digest: &str,
        salt: &str,
        expiration: &str,
        token: Option<&str>,
        token_expiration: Option<&str>,
    ) -> (made: Result<Account, AuthError>)
        ensures
            account_result(made) == stored_account(
                username@,
                password_digest@,
                salt@,
                expiration@,
                text_view(token),
                text_view(token_expiration),
            ),
    {
        let expiration = match parse_date(expiration) {
            Some(date) => date,
            None => {
                return Err(AuthError::StorageFailure);
            },
        };
        let session = match token {
            None => None,
            Some(t) => {
                let text = match token_expiration {
                    Some(e) => e,
                    None => {
                        return Err(AuthError::StorageFailure);
                    },
                };
                match parse_second(text) {
                    Some(expires_at) => Some(Session { token: t.to_owned(), expires_at }),
                    None => {
                        return Err(AuthError::StorageFailure);
                    },
                }
            },
        };
        Ok(
            Account {
                username: username.to_owned(),
                password_digest: password_digest.to_owned(),
                salt: salt.to_owned(),
                expiration,
                session,
            },
        )
    }
}

impl AccountView {
    /// The same account with another session, or with none.
    pub open spec fn with_session(self, session: Option<SessionView>) -> AccountView {
        AccountView { session, ..self }
    }

    /// Whether the account holds `token`.
    pub open spec fn holds(self, token: Seq<char>) -> bool {
        self.session matches Some(s) && s.token == token
    }
}

/// One capability granted to one account.
#[derive(Debug, PartialEq, Eq)]
pub struct Grant {
    pub username: String,
    pub capability: String,
}

/// A `Grant` as a mathematical value.
pub struct GrantView {
    pub username: Seq<char>,
    pub capability: Seq<char>,
}

impl View for Grant {
    type V = GrantView;

    open spec fn view(&self) -> GrantView {
        GrantView { username: self.username@, capability: self.capability@ }
    }
}

impl Clone for Grant {
    fn clone(&self) -> (copy: Grant)
        ensures
            copy@ == self@,
    {
        Grant { username: self.username.clone(), capability: self.capability.clone() }
    }
}

} // verus!
