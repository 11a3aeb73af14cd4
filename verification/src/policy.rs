//! The decisions of login and authorization, made on values that the caller
//! has read from its store. Each decision names the write that must follow.

use vstd::prelude::*;
use crate::account::{Account, AccountView, Grant, GrantView, Session, SessionView};
use crate::clock::{today, unix_now, Date, LATEST_SECOND};
use crate::digest::{hash, password_digest};
use crate::error::AuthError;
use crate::secret::{random_token, TOKEN_LENGTH};
use crate::text::same_text;

verus! {

/// What a login attempt leads to.
#[derive(Debug, PartialEq, Eq)]
pub enum LoginStep {
    /// The attempt fails; nothing is written.
    Refuse(AuthError),
    /// The account has expired: it is to be removed, and the attempt fails
    /// with `AccountExpired`.
    Remove,
    /// The attempt succeeds: the session is to be stored with the account and
    /// its token handed to the caller.
    Issue(Session),
}

/// A `LoginStep` as a mathematical value.
pub enum LoginStepView {
    Refuse(AuthError),
    Remove,
    Issue(SessionView),
}

impl View for LoginStep {
    type V = LoginStepView;

    open spec fn view(&self) -> LoginStepView {
        match self {
            LoginStep::Refuse(e) => LoginStepView::Refuse(*e),
            LoginStep::Remove => LoginStepView::Remove,
            LoginStep::Issue(s) => LoginStepView::Issue(s@),
        }
    }
}

/// Whether a session is still live at second `now`: it ends strictly later.
pub open spec fn is_live(session: SessionView, now: int) -> bool {
    session.expires_at > now
}

/// Whether `password` is the password of `account`.
pub open spec fn password_matches(account: AccountView, password: Seq<char>) -> bool {
    password_digest(password, account.salt) == account.password_digest
}

/// The decision on a login attempt. `account` is the account of the given
/// name, if there is one; `token` is the fresh token to issue on success.
pub open spec fn login_step(
    account: Option<AccountView>,
    password: Seq<char>,
    today: Date,
    now: int,
    ttl: int,
    token: Seq<char>,
) -> LoginStepView {
    match account {
        None => LoginStepView::Refuse(AuthError::AccountNotFound),
        Some(a) => if today.is_after(a.expiration) {
            LoginStepView::Remove
        } else if !password_matches(a, password) {
            LoginStepView::Refuse(AuthError::InvalidCredentials)
        } else {
            LoginStepView::Issue(SessionView { token, expires_at: now + ttl })
        },
    }
}

/// The view of an account that may be absent.
pub open spec fn account_view(account: Option<&Account>) -> Option<AccountView> {
    match account {
        Some(a) => Some(a@),
        None => None,
    }
}

/// Decides a login attempt.
pub fn decide_login(
    account: Option<&Account>,
    password: &str,
    today: Date,
    now: i64,
    ttl: u32,
    token: String,
) -> (step: LoginStep)
    requires
        now + ttl <= i64::MAX,
    ensures
        step@ == login_step(
            account_view(account),
            password@,
            today,
            now as int,
            ttl as int,
            token@,
        ),
{
    match account {
        None => LoginStep::Refuse(AuthError::AccountNotFound),
        Some(a) => {
            if today.after(&a.expiration) {
                LoginStep::Remove
            } else {
                let digest = hash(password, a.salt.as_str());
                if !same_text(digest.as_str(), a.password_digest.as_str()) {
                    LoginStep::Refuse(AuthError::InvalidCredentials)
                } else {
                    LoginStep::Issue(Session { token, expires_at: now + ttl as i64 })
                }
            }
        },
    }
}

/// Decides a login attempt now: reads the clock and draws the token to issue
/// on success.
pub fn decide_login_now(account: Option<&Account>, password: &str, ttl: u32) -> (step: LoginStep)
    ensures
        exists|today: Date, now: int, token: Seq<char>|
            today.in_calendar() && 0 <= now < LATEST_SECOND && token.len() == TOKEN_LENGTH && step@
                == #[trigger] login_step(
                account_view(account),
                password@,
                today,
                now,
                ttl as int,
                token,
            ),
{
    let day = today();
    let now = unix_now();
    let token = random_token();
    let ghost token_view = token@;
    let step = decide_login(account, password, day, now, ttl, token);
    assert(step@ == login_step(
        account_view(account),
        password@,
        day,
        now as int,
        ttl as int,
        token_view,
    ));
    step
}

/// What the check of a presented token leads to.
#[derive(Debug, PartialEq, Eq)]
pub enum TokenStep {
    /// The request fails; nothing is written.
    Refuse(AuthError),
    /// The token has expired: it is to be cleared from its account, and the
    /// request fails with `TokenExpired`.
    Clear,
    /// The token is live and belongs to the named account, whose grants
    /// decide the rest.
    Live(String),
}

/// A `TokenStep` as a mathematical value.
pub enum TokenStepView {
    Refuse(AuthError),
    Clear,
    Live(Seq<char>),
}

impl View for TokenStep {
    type V = TokenStepView;

    open spec fn view(&self) -> TokenStepView {
        match self {
            TokenStep::Refuse(e) => TokenStepView::Refuse(*e),
            TokenStep::Clear => TokenStepView::Clear,
            TokenStep::Live(name) => TokenStepView::Live(name@),
        }
    }
}

/// The decision on a presented token. `holder` is the account that was
/// found for the token, if one was; an account that does not hold the token
/// counts as none.
pub open spec fn token_step(token: Seq<char>, holder: Option<AccountView>, now: int)
    -> TokenStepView {
    if token.len() == 0 {
        TokenStepView::Refuse(AuthError::NoToken)
    } else {
        match holder {
            Some(a) => match a.session {
                Some(s) => if s.token != token {
                    TokenStepView::Refuse(AuthError::UnknownToken)
                } else if is_live(s, now) {
                    TokenStepView::Live(a.username)
                } else {
                    TokenStepView::Clear
                },
                None => TokenStepView::Refuse(AuthError::UnknownToken),
            },
            None => TokenStepView::Refuse(AuthError::UnknownToken),
        }
    }
}

/// Decides on a presented token.
pub fn decide_token(token: &str, holder: Option<&Account>, now: i64) -> (step: TokenStep)
    ensures
        step@ == token_step(token@, account_view(holder), now as int),
{
    if token.is_empty() {
        return TokenStep::Refuse(AuthError::NoToken);
    }
    match holder {
        None => TokenStep::Refuse(AuthError::UnknownToken),
        Some(a) => match &a.session {
            None => TokenStep::Refuse(AuthError::UnknownToken),
            Some(s) => if !same_text(s.token.as_str(), token) {
                TokenStep::Refuse(AuthError::UnknownToken)
            } else if s.expires_at > now {
                TokenStep::Live(a.username.clone())
            } else {
                TokenStep::Clear
            },
        },
    }
}

/// Decides on a presented token now: reads the clock.
pub fn decide_token_now(token: &str, holder: Option<&Account>) -> (step: TokenStep)
    ensures
        exists|now: int|
            0 <= now < LATEST_SECOND && step@ == #[trigger] token_step(
                token@,
                account_view(holder),
                now,
            ),
{
    let now = unix_now();
    let step = decide_token(token, holder, now);
    assert(step@ == token_step(token@, account_view(holder), now as int));
    step
}

/// Whether `grants` holds the grant of `capability` to `username`.
pub open spec fn is_granted(grants: Seq<GrantView>, username: Seq<char>, capability: Seq<char>)
    -> bool {
    grants.contains(GrantView { username, capability })
}

/// The views of a vector of grants.
pub open spec fn grant_views(grants: Seq<Grant>) -> Seq<GrantView> {
    grants.map_values(|g: Grant| g@)
}

/// Tells whether `grants` holds the grant of `capability` to `username`.
/// Names are compared character by character: there is no wildcard and no
/// hierarchy.
pub fn has_grant(grants: &Vec<Grant>, username: &str, capability: &str) -> (found: bool)
    ensures
        found == is_granted(grant_views(grants@), username@, capability@),
{
    let ghost wanted = GrantView { username: username@, capability: capability@ };
    let mut i: usize = 0;
    while i < grants.len()
        invariant
            i <= grants.len(),
            wanted == (GrantView { username: username@, capability: capability@ }),
            forall|j: int| 0 <= j < i ==> grant_views(grants@)[j] != wanted,
        decreases grants.len() - i,
    {
        if same_text(grants[i].username.as_str(), username) && same_text(
            grants[i].capability.as_str(),
            capability,
        ) {
            assert(grant_views(grants@)[i as int] == wanted);
            return true;
        }
        i += 1;
    }
    false
}

/// Decides a request whose token is live: the account's name where it holds
/// the capability, `Forbidden` where it does not.
pub fn decide_grant(grants: &Vec<Grant>, username: String, capability: &str) -> (verdict: Result<
    String,
    AuthError,
>)
    ensures
        match verdict {
            Ok(name) => name@ == username@ && is_granted(
                grant_views(grants@),
                username@,
                capability@,
            ),
            Err(e) => e == AuthError::Forbidden && !is_granted(
                grant_views(grants@),
                username@,
                capability@,
            ),
        },
{
    if has_grant(grants, username.as_str(), capability) {
        Ok(username)
    } else {
        Err(AuthError::Forbidden)
    }
}

} // verus!
