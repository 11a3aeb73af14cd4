//! The accounts and grants of one installation, and the four operations on
//! them: creating an account, login, logout and authorization.

use vstd::prelude::*;
use crate::account::{
    session_view, Account, AccountView, Grant, GrantView, Session, SessionView,
};
use crate::clock::{today, unix_now, Date, LATEST_SECOND};
use crate::digest::password_digest;
use crate::error::AuthError;
use crate::policy::{
    account_view, decide_grant, decide_login, decide_token, grant_views, has_grant, is_granted,
    login_step, token_step, LoginStep, LoginStepView, TokenStep, TokenStepView,
};
use crate::secret::{all_alphanumeric, random_salt, random_token, TOKEN_LENGTH};
use crate::text::same_text;

verus! {

/// The two settings of a store.
#[derive(Debug, Clone, Copy, PartialEq, Eq, Structural)]
pub struct AuthConfig {
    /// For how many seconds a token stays live after login.
    pub token_ttl: u32,
    /// How many characters a fresh salt has.
    pub salt_length: usize,
}

impl Default for AuthConfig {
    fn default() -> (config: AuthConfig)
        ensures
            config == (AuthConfig { token_ttl: 300, salt_length: 16 }),
    {
        AuthConfig { token_ttl: 300, salt_length: 16 }
    }
}

/// The views of a vector of accounts.
pub open spec fn account_views(accounts: Seq<Account>) -> Seq<AccountView> {
    accounts.map_values(|a: Account| a@)
}

/// Whether two accounts hold the same token.
pub open spec fn share_token(a: AccountView, b: AccountView) -> bool {
    a.session matches Some(s) && b.holds(s.token)
}

/// A store as a mathematical value: its accounts and its grants, each in the
/// order in which they were added.
pub struct StoreView {
    pub accounts: Seq<AccountView>,
    pub grants: Seq<GrantView>,
}

impl StoreView {
    /// Whether an account has the name `name`.
    pub open spec fn has_name(self, name: Seq<char>) -> bool {
        exists|i: int| 0 <= i < self.accounts.len() && (#[trigger] self.accounts[i]).username == name
    }

    /// The place of the account that has the name `name`.
    pub open spec fn index_of(self, name: Seq<char>) -> int {
        choose|i: int| 0 <= i < self.accounts.len() && (#[trigger] self.accounts[i]).username == name
    }

    /// The account that has the name `name`, if there is one.
    pub open spec fn account(self, name: Seq<char>) -> Option<AccountView> {
        if self.has_name(name) {
            Some(self.accounts[self.index_of(name)])
        } else {
            None
        }
    }

    /// Whether an account holds the token `token`.
    pub open spec fn has_token(self, token: Seq<char>) -> bool {
        exists|i: int| 0 <= i < self.accounts.len() && (#[trigger] self.accounts[i]).holds(token)
    }

    /// The place of the account that holds the token `token`.
    pub open spec fn holder_index(self, token: Seq<char>) -> int {
        choose|i: int| 0 <= i < self.accounts.len() && (#[trigger] self.accounts[i]).holds(token)
    }

    /// The account that holds the token `token`, if there is one.
    pub open spec fn holder(self, token: Seq<char>) -> Option<AccountView> {
        if self.has_token(token) {
            Some(self.accounts[self.holder_index(token)])
        } else {
            None
        }
    }

    /// The store after the account `username` was added with `salt`, and the
    /// grant of `capability` to it unless the store held that grant already.
    pub open spec fn created(
        self,
        username: Seq<char>,
        password: Seq<char>,
        expiration: Date,
        capability: Seq<char>,
        salt: Seq<char>,
    ) -> StoreView {
        StoreView {
            accounts: self.accounts.push(
                AccountView {
                    username,
                    password_digest: password_digest(password, salt),
                    salt,
                    expiration,
                    session: None,
                },
            ),
            grants: if is_granted(self.grants, username, capability) {
                self.grants
            } else {
                self.grants.push(GrantView { username, capability })
            },
        }
    }

    /// Whether an account other than `username` holds the token `token`.
    pub open spec fn token_taken(self, username: Seq<char>, token: Seq<char>) -> bool {
        exists|i: int|
            0 <= i < self.accounts.len() && (#[trigger] self.accounts[i]).holds(token)
                && self.accounts[i].username != username
    }

    /// The store with another session, or none, for the account at place `i`.
    pub open spec fn with_session_at(self, i: int, session: Option<SessionView>) -> StoreView {
        StoreView {
            accounts: self.accounts.update(i, self.accounts[i].with_session(session)),
            ..self
        }
    }

    /// The store without the account at place `i`. Its grants stay.
    pub open spec fn without_account_at(self, i: int) -> StoreView {
        StoreView { accounts: self.accounts.remove(i), ..self }
    }

    /// What a login attempt returns and what it leaves in the store.
    pub open spec fn login_result(
        self,
        username: Seq<char>,
        password: Seq<char>,
        today: Date,
        now: int,
        ttl: int,
        token: Seq<char>,
    ) -> (Result<SessionView, AuthError>, StoreView) {
        match login_step(self.account(username), password, today, now, ttl, token) {
            LoginStepView::Refuse(e) => (Err(e), self),
            LoginStepView::Remove => (
                Err(AuthError::AccountExpired),
                self.without_account_at(self.index_of(username)),
            ),
            LoginStepView::Issue(session) => if self.token_taken(username, token) {
                (Err(AuthError::StorageFailure), self)
            } else {
                (Ok(session), self.with_session_at(self.index_of(username), Some(session)))
            },
        }
    }

    /// The store after a logout with `token`: the account that holds the
    /// token, if any, has no session any more.
    pub open spec fn logged_out(self, token: Seq<char>) -> StoreView {
        if self.has_token(token) {
            self.with_session_at(self.holder_index(token), None)
        } else {
            self
        }
    }

    /// What an authorization check returns and what it leaves in the store.
    pub open spec fn authorize_result(self, token: Seq<char>, capability: Seq<char>, now: int) -> (
        Result<Seq<char>, AuthError>,
        StoreView,
    ) {
        match token_step(token, self.holder(token), now) {
            TokenStepView::Refuse(e) => (Err(e), self),
            TokenStepView::Clear => (Err(AuthError::TokenExpired), self.logged_out(token)),
            TokenStepView::Live(name) => if is_granted(self.grants, name, capability) {
                (Ok(name), self)
            } else {
                (Err(AuthError::Forbidden), self)
            },
        }
    }

    /// In a well-formed store at most one account holds a given token.
    pub proof fn lemma_one_holder(self, token: Seq<char>, i: int, j: int)
        requires
            self.well_formed(),
            0 <= i < self.accounts.len(),
            0 <= j < self.accounts.len(),
            self.accounts[i].holds(token),
            self.accounts[j].holds(token),
        ensures
            i == j,
    {
        if i < j {
            assert(!share_token(self.accounts[i], self.accounts[j]));
        } else if j < i {
            assert(!share_token(self.accounts[j], self.accounts[i]));
        }
    }

    /// In a well-formed store the token of an account is held by no account
    /// of another name.
    pub proof fn lemma_token_not_taken(self, i: int, token: Seq<char>)
        requires
            self.well_formed(),
            0 <= i < self.accounts.len(),
            self.accounts[i].holds(token),
        ensures
            !self.token_taken(self.accounts[i].username, token),
    {
        assert forall|k: int|
            0 <= k < self.accounts.len() && (#[trigger] self.accounts[k]).holds(
                token,
            ) implies self.accounts[k].username == self.accounts[i].username by {
            self.lemma_one_holder(token, i, k);
        }
    }

    /// A well-formed store stays well formed when an account is removed.
    pub proof fn lemma_without_account_keeps_form(self, i: int)
        requires
            self.well_formed(),
            0 <= i < self.accounts.len(),
        ensures
            self.without_account_at(i).well_formed(),
    {
        let after = self.without_account_at(i).accounts;
        assert forall|a: int, b: int| 0 <= a < b < after.len() implies (#[trigger] after[a]).username
            != (#[trigger] after[b]).username && !share_token(after[a], after[b]) by {
            let a0 = if a < i { a } else { a + 1 };
            let b0 = if b < i { b } else { b + 1 };
            assert(after[a] == self.accounts[a0]);
            assert(after[b] == self.accounts[b0]);
            assert(self.accounts[a0].username != self.accounts[b0].username);
            assert(!share_token(self.accounts[a0], self.accounts[b0]));
        }
    }

    /// A well-formed store stays well formed when an account loses its
    /// session, or gets one whose token no account of another name holds.
    pub proof fn lemma_with_session_keeps_form(self, i: int, session: Option<SessionView>)
        requires
            self.well_formed(),
            0 <= i < self.accounts.len(),
            session matches Some(s) ==> !self.token_taken(self.accounts[i].username, s.token),
        ensures
            self.with_session_at(i, session).well_formed(),
    {
        let after = self.with_session_at(i, session).accounts;
        assert forall|a: int, b: int| 0 <= a < b < after.len() implies (#[trigger] after[a]).username
            != (#[trigger] after[b]).username && !share_token(after[a], after[b]) by {
            assert(self.accounts[a].username != self.accounts[b].username);
            assert(!share_token(self.accounts[a], self.accounts[b]));
            if a == i && after[b].session is Some {
                assert(self.accounts[b].holds(after[b].session.unwrap().token));
            }
            if b == i && after[a].session is Some {
                assert(self.accounts[a].holds(after[a].session.unwrap().token));
            }
        }
    }

    /// A well-formed store stays well formed when an account of a new name
    /// is added.
    pub proof fn lemma_created_keeps_form(
        self,
        username: Seq<char>,
        password: Seq<char>,
        expiration: Date,
        capability: Seq<char>,
        salt: Seq<char>,
    )
        requires
            self.well_formed(),
            !self.has_name(username),
        ensures
            self.created(username, password, expiration, capability, salt).well_formed(),
    {
        let made = self.created(username, password, expiration, capability, salt);
        assert forall|a: int, b: int| 0 <= a < b < made.accounts.len() implies (
        #[trigger] made.accounts[a]).username != (#[trigger] made.accounts[b]).username
            && !share_token(made.accounts[a], made.accounts[b]) by {
            if b < self.accounts.len() {
                assert(self.accounts[a].username != self.accounts[b].username);
                assert(!share_token(self.accounts[a], self.accounts[b]));
            } else {
                assert(self.accounts[a].username != username);
            }
        }
    }

    /// What the store requires of its rows: no two accounts share a name, no
    /// two accounts hold the same token, and no grant occurs twice.
    pub open spec fn well_formed(self) -> bool {
        &&& forall|i: int, j: int|
            0 <= i < j < self.accounts.len() ==> (#[trigger] self.accounts[i]).username != (
            #[trigger] self.accounts[j]).username
        &&& forall|i: int, j: int|
            0 <= i < j < self.accounts.len() ==> !share_token(
                #[trigger] self.accounts[i],
                #[trigger] self.accounts[j],
            )
        &&& self.grants.no_duplicates()
    }
}

/// Accounts and grants, kept in memory.
pub struct AuthStore {
    config: AuthConfig,
    accounts: Vec<Account>,
    grants: Vec<Grant>,
}

impl View for AuthStore {
    type V = StoreView;

    closed spec fn view(&self) -> StoreView {
        StoreView { accounts: account_views(self.accounts@), grants: grant_views(self.grants@) }
    }
}

impl AuthStore {
    #[verifier::type_invariant]
    spec fn inv(self) -> bool {
        self@.well_formed()
    }

    /// The settings of the store.
    pub closed spec fn settings(self) -> AuthConfig {
        self.config
    }

    /// An empty store with the given settings.
    pub fn new(config: AuthConfig) -> (store: AuthStore)
        ensures
            store@.accounts.len() == 0,
            store@.grants.len() == 0,
            store.settings() == config,
    {
        AuthStore { config, accounts: Vec::new(), grants: Vec::new() }
    }

    /// Hands out the accounts and leaves none behind.
    fn take_accounts(&mut self) -> (accounts: Vec<Account>)
        ensures
            accounts == old(self).accounts,
            final(self).accounts@.len() == 0,
            final(self).grants == old(self).grants,
            final(self).config == old(self).config,
    {
        proof {
            use_type_invariant(&*self);
        }
        let mut accounts: Vec<Account> = Vec::new();
        core::mem::swap(&mut self.accounts, &mut accounts);
        accounts
    }

    /// Puts `accounts` in the place of the accounts of the store.
    fn put_accounts(&mut self, accounts: Vec<Account>)
        requires
            (StoreView {
                accounts: account_views(accounts@),
                grants: grant_views(old(self).grants@),
            }).well_formed(),
        ensures
            final(self).accounts == accounts,
            final(self).grants == old(self).grants,
            final(self).config == old(self).config,
    {
        let mut accounts = accounts;
        core::mem::swap(&mut self.accounts, &mut accounts);
    }

    /// Adds `grant` to the grants of the store.
    fn add_grant(&mut self, grant: Grant)
        requires
            !grant_views(old(self).grants@).contains(grant@),
        ensures
            final(self).accounts == old(self).accounts,
            final(self).grants@ == old(self).grants@.push(grant),
            final(self).config == old(self).config,
    {
        proof {
            use_type_invariant(&*self);
        }
        let mut grants: Vec<Grant> = Vec::new();
        core::mem::swap(&mut self.grants, &mut grants);
        let ghost before = grants@;
        grants.push(grant);
        assert(grant_views(grants@) == grant_views(before).push(grant@));
        core::mem::swap(&mut self.grants, &mut grants);
    }

    /// The place of the account named `name`.
    fn find_name(&self, name: &str) -> (found: Option<usize>)
        ensures
            match found {
                Some(i) => self@.has_name(name@) && i == self@.index_of(name@) && i
                    < self.accounts.len(),
                None => !self@.has_name(name@),
            },
    {
        proof {
            use_type_invariant(self);
        }
        let mut i: usize = 0;
        while i < self.accounts.len()
            invariant
                i <= self.accounts.len(),
                self@.well_formed(),
                forall|j: int| 0 <= j < i ==> (#[trigger] self@.accounts[j]).username != name@,
            decreases self.accounts.len() - i,
        {
            if same_text(self.accounts[i].username.as_str(), name) {
                proof {
                    assert(self@.accounts[i as int].username == name@);
                    let k = self@.index_of(name@);
                    assert(self@.accounts[k].username == name@);
                    assert(k == i);
                }
                return Some(i);
            }
            i += 1;
        }
        None
    }

    /// The place of the account that holds `token`.
    fn find_token(&self, token: &str) -> (found: Option<usize>)
        ensures
            match found {
                Some(i) => self@.has_token(token@) && i == self@.holder_index(token@) && i
                    < self.accounts.len(),
                None => !self@.has_token(token@),
            },
    {
        proof {
            use_type_invariant(self);
        }
        let mut i: usize = 0;
        while i < self.accounts.len()
            invariant
                i <= self.accounts.len(),
                self@.well_formed(),
                forall|j: int| 0 <= j < i ==> !(#[trigger] self@.accounts[j]).holds(token@),
            decreases self.accounts.len() - i,
        {
            let held = match &self.accounts[i].session {
                Some(s) => same_text(s.token.as_str(), token),
                None => false,
            };
            if held {
                proof {
                    assert(self@.accounts[i as int].holds(token@));
                    let k = self@.holder_index(token@);
                    assert(self@.accounts[k].holds(token@));
                    assert(k == i);
                }
                return Some(i);
            }
            i += 1;
        }
        None
    }
}

impl AuthStore {
    /// Adds an account with the given salt, and the grant of `capability` to
    /// it. Fails where the name is taken.
    pub fn create_account_with_salt(
        &mut self,
        username: &str,
        password: &str,
        expiration: Date,
        capability: &str,
        salt: String,
    ) -> (made: Result<(), AuthError>)
        ensures
            final(self).settings() == old(self).settings(),
            final(self)@.well_formed(),
            match made {
                Ok(_) => !old(self)@.has_name(username@) && final(self)@ == old(self)@.created(
                    username@,
                    password@,
                    expiration,
                    capability@,
                    salt@,
                ) && final(self)@.accounts.last().password_digest.len() == 64,
                Err(e) => e == AuthError::DuplicateAccount && old(self)@.has_name(username@)
                    && final(self)@ == old(self)@,
            },
    {
        proof {
            use_type_invariant(&*self);
        }
        if self.find_name(username).is_some() {
            return Err(AuthError::DuplicateAccount);
        }
        let account = Account::with_salt(username, password, expiration, salt);
        let ghost before = self@;
        let mut accounts = self.take_accounts();
        accounts.push(account);
        assert(account_views(accounts@) == before.accounts.push(account@));
        self.put_accounts(accounts);
        if !has_grant(&self.grants, username, capability) {
            let grant = Grant { username: username.to_owned(), capability: capability.to_owned() };
            self.add_grant(grant);
            assert(self@.grants == before.grants.push(grant@));
        }
        Ok(())
    }

    /// Sets or clears the session of the account at place `i`.
    fn set_session_at(&mut self, i: usize, session: Option<Session>)
        requires
            i < old(self)@.accounts.len(),
            session matches Some(s) ==> !old(self)@.token_taken(
                old(self)@.accounts[i as int].username,
                s.token@,
            ),
        ensures
            final(self).settings() == old(self).settings(),
            final(self)@ == old(self)@.with_session_at(i as int, session_view(session)),
    {
        proof {
            use_type_invariant(&*self);
        }
        let ghost before = self@;
        let mut accounts = self.take_accounts();
        accounts[i].session = session;
        proof {
            assert(account_views(accounts@) == before.with_session_at(
                i as int,
                session_view(session),
            ).accounts);
            before.lemma_with_session_keeps_form(i as int, session_view(session));
        }
        self.put_accounts(accounts);
    }

    /// Removes the account at place `i`.
    fn remove_at(&mut self, i: usize)
        requires
            i < old(self)@.accounts.len(),
        ensures
            final(self).settings() == old(self).settings(),
            final(self)@ == old(self)@.without_account_at(i as int),
    {
        proof {
            use_type_invariant(&*self);
        }
        let ghost before = self@;
        let mut accounts = self.take_accounts();
        accounts.remove(i);
        proof {
            assert(account_views(accounts@) == before.without_account_at(i as int).accounts);
            before.lemma_without_account_keeps_form(i as int);
        }
        self.put_accounts(accounts);
    }

    /// Tells whether an account other than `username` holds `token`.
    fn is_token_taken(&self, username: &str, token: &str) -> (taken: bool)
        ensures
            taken == self@.token_taken(username@, token@),
    {
        match self.find_token(token) {
            Some(i) => {
                let other = !same_text(self.accounts[i].username.as_str(), username);
                proof {
                    use_type_invariant(self);
                    if !other {
                        self@.lemma_token_not_taken(i as int, token@);
                    } else {
                        assert(self@.accounts[i as int].holds(token@));
                    }
                }
                other
            },
            None => false,
        }
    }

    /// Login at a given day and second, with the token to issue on success.
    ///
    /// Fails with `AccountNotFound` where no account has the name; with
    /// `AccountExpired` where `today` is after the account's last day, and
    /// then removes the account; with `InvalidCredentials` where the password
    /// does not match; with `StorageFailure` where another account holds
    /// `token`. Otherwise the account gets the session `token`, ending
    /// `token_ttl` seconds after `now`, in place of any earlier one.
    pub fn login_at(
        &mut self,
        username: &str,
        password: &str,
        today: Date,
        now: i64,
        token: String,
    ) -> (opened: Result<Session, AuthError>)
        requires
            now + old(self).settings().token_ttl <= i64::MAX,
        ensures
            final(self).settings() == old(self).settings(),
            final(self)@.well_formed(),
            (session_result(opened), final(self)@) == old(self)@.login_result(
                username@,
                password@,
                today,
                now as int,
                old(self).settings().token_ttl as int,
                token@,
            ),
    {
        proof {
            use_type_invariant(&*self);
        }
        let place = self.find_name(username);
        let account = match place {
            Some(i) => Some(&self.accounts[i]),
            None => None,
        };
        assert(account_view(account) == self@.account(username@));
        let taken = self.is_token_taken(username, token.as_str());
        let step = decide_login(account, password, today, now, self.config.token_ttl, token);
        match step {
            LoginStep::Refuse(e) => Err(e),
            LoginStep::Remove => {
                self.remove_at(place.unwrap());
                proof {
                    use_type_invariant(&*self);
                }
                Err(AuthError::AccountExpired)
            },
            LoginStep::Issue(session) => {
                if taken {
                    Err(AuthError::StorageFailure)
                } else {
                    self.set_session_at(place.unwrap(), Some(session.clone()));
                    proof {
                        use_type_invariant(&*self);
                    }
                    Ok(session)
                }
            },
        }
    }

    /// Login now: reads the clock, draws a fresh token and does what
    /// `login_at` does with them.
    pub fn login(&mut self, username: &str, password: &str) -> (opened: Result<Session, AuthError>)
        ensures
            final(self).settings() == old(self).settings(),
            final(self)@.well_formed(),
            exists|today: Date, now: int, token: Seq<char>|
                today.in_calendar() && 0 <= now < LATEST_SECOND && token.len() == TOKEN_LENGTH
                    && #[trigger] old(
                    self,
                )@.login_result(
                    username@,
                    password@,
                    today,
                    now,
                    old(self).settings().token_ttl as int,
                    token,
                ) == (session_result(opened), final(self)@),
    {
        let day = today();
        let now = unix_now();
        let token = random_token();
        let ghost token_view = token@;
        let opened = self.login_at(username, password, day, now, token);
        assert(old(self)@.login_result(
            username@,
            password@,
            day,
            now as int,
            old(self).settings().token_ttl as int,
            token_view,
        ) == (session_result(opened), self@));
        opened
    }

    /// Adds an account under a fresh random salt, and the grant of
    /// `capability` to it. Fails with `DuplicateAccount` where the name is
    /// taken. The new account has no session.
    pub fn create_account(
        &mut self,
        username: &str,
        password: &str,
        expiration: Date,
        capability: &str,
    ) -> (made: Result<(), AuthError>)
        ensures
            final(self).settings() == old(self).settings(),
            final(self)@.well_formed(),
            match made {
                Ok(_) => !old(self)@.has_name(username@)
                    && final(self)@.accounts.last().password_digest.len() == 64
                    && exists|salt: Seq<char>|
                    salt.len() == old(self).settings().salt_length && all_alphanumeric(salt)
                        && final(self)@ == #[trigger] old(self)@.created(
                        username@,
                        password@,
                        expiration,
                        capability@,
                        salt,
                    ),
                Err(e) => e == AuthError::DuplicateAccount && old(self)@.has_name(username@)
                    && final(self)@ == old(self)@,
            },
    {
        let salt = random_salt(self.config.salt_length);
        let ghost salt_view = salt@;
        let made = self.create_account_with_salt(username, password, expiration, capability, salt);
        proof {
            if made is Ok {
                assert(self@ == old(self)@.created(
                    username@,
                    password@,
                    expiration,
                    capability@,
                    salt_view,
                ));
            }
        }
        made
    }

    /// Authorization now: reads the clock and does what `authorize_at` does.
    pub fn authorize(&mut self, token: &str, capability: &str) -> (verdict: Result<
        String,
        AuthError,
    >)
        ensures
            final(self).settings() == old(self).settings(),
            final(self)@.well_formed(),
            exists|now: int|
                0 <= now < LATEST_SECOND && #[trigger] old(self)@.authorize_result(
                    token@,
                    capability@,
                    now,
                ) == (name_result(verdict), final(self)@),
    {
        let now = unix_now();
        let verdict = self.authorize_at(token, capability, now);
        assert(old(self)@.authorize_result(token@, capability@, now as int) == (
            name_result(verdict),
            self@,
        ));
        verdict
    }

    /// The name of the account that holds `token`, whether or not the
    /// session is still live.
    pub fn current_user(&self, token: &str) -> (name: Option<String>)
        ensures
            match name {
                Some(n) => self@.holder(token@) matches Some(a) && a.username == n@,
                None => self@.holder(token@) is None,
            },
    {
        match self.find_token(token) {
            Some(i) => Some(self.accounts[i].username.clone()),
            None => None,
        }
    }

    /// A copy of the account named `username`, if there is one.
    pub fn account(&self, username: &str) -> (found: Option<Account>)
        ensures
            account_copy(found) == self@.account(username@),
    {
        match self.find_name(username) {
            Some(i) => Some(self.accounts[i].clone()),
            None => None,
        }
    }

    /// The names of all accounts, in the order in which they were added.
    pub fn usernames(&self) -> (names: Vec<String>)
        ensures
            names@.len() == self@.accounts.len(),
            forall|i: int|
                0 <= i < names@.len() ==> (#[trigger] names@[i])@ == self@.accounts[i].username,
    {
        let mut names: Vec<String> = Vec::new();
        let mut i: usize = 0;
        while i < self.accounts.len()
            invariant
                i <= self.accounts.len(),
                names@.len() == i,
                forall|j: int|
                    0 <= j < i ==> (#[trigger] names@[j])@ == self@.accounts[j].username,
            decreases self.accounts.len() - i,
        {
            names.push(self.accounts[i].username.clone());
            i += 1;
        }
        names
    }

    /// Removes the account named `username`, if there is one. Its grants
    /// stay in the store.
    pub fn delete_account(&mut self, username: &str) -> (removed: bool)
        ensures
            final(self).settings() == old(self).settings(),
            final(self)@.well_formed(),
            removed == old(self)@.has_name(username@),
            final(self)@ == if removed {
                old(self)@.without_account_at(old(self)@.index_of(username@))
            } else {
                old(self)@
            },
    {
        let removed = match self.find_name(username) {
            Some(i) => {
                self.remove_at(i);
                true
            },
            None => false,
        };
        proof {
            use_type_invariant(&*self);
        }
        removed
    }

    /// Moves the end of the session of the account named `username` to the
    /// second `expires_at`. Does nothing where there is no such account or it
    /// has no session.
    pub fn set_token_expiration(&mut self, username: &str, expires_at: i64) -> (changed: bool)
        ensures
            final(self).settings() == old(self).settings(),
            final(self)@.well_formed(),
            changed == (old(self)@.account(username@) matches Some(a) && a.session is Some),
            final(self)@ == if changed {
                old(self)@.with_session_at(
                    old(self)@.index_of(username@),
                    Some(
                        SessionView {
                            token: old(self)@.account(username@).unwrap().session.unwrap().token,
                            expires_at: expires_at as int,
                        },
                    ),
                )
            } else {
                old(self)@
            },
    {
        proof {
            use_type_invariant(&*self);
        }
        let changed = match self.find_name(username) {
            Some(i) => {
                match &self.accounts[i].session {
                    Some(s) => {
                        let session = Session { token: s.token.clone(), expires_at };
                        proof {
                            self@.lemma_token_not_taken(i as int, session.token@);
                        }
                        self.set_session_at(i, Some(session));
                        true
                    },
                    None => false,
                }
            },
            None => false,
        };
        proof {
            use_type_invariant(&*self);
        }
        changed
    }

    /// The settings of the store.
    pub fn config(&self) -> (config: AuthConfig)
        ensures
            config == self.settings(),
    {
        self.config
    }

    /// Ends the session that `token` belongs to. Where no account holds
    /// `token`, nothing happens.
    pub fn logout(&mut self, token: &str)
        ensures
            final(self).settings() == old(self).settings(),
            final(self)@.well_formed(),
            final(self)@ == old(self)@.logged_out(token@),
    {
        proof {
            use_type_invariant(&*self);
        }
        if let Some(i) = self.find_token(token) {
            self.set_session_at(i, None);
        }
        proof {
            use_type_invariant(&*self);
        }
    }

    /// Authorization at a given second.
    ///
    /// Fails with `NoToken` where `token` is empty; with `UnknownToken` where
    /// no account holds it; with `TokenExpired` where its session does not
    /// end after `now`, and then clears the session; with `Forbidden` where
    /// the account lacks the grant of `capability`. Otherwise returns the
    /// account's name.
    pub fn authorize_at(&mut self, token: &str, capability: &str, now: i64) -> (verdict: Result<
        String,
        AuthError,
    >)
        ensures
            final(self).settings() == old(self).settings(),
            final(self)@.well_formed(),
            (name_result(verdict), final(self)@) == old(self)@.authorize_result(
                token@,
                capability@,
                now as int,
            ),
    {
        proof {
            use_type_invariant(&*self);
        }
        let place = self.find_token(token);
        let holder = match place {
            Some(i) => Some(&self.accounts[i]),
            None => None,
        };
        assert(account_view(holder) == self@.holder(token@));
        match decide_token(token, holder, now) {
            TokenStep::Refuse(e) => Err(e),
            TokenStep::Clear => {
                self.set_session_at(place.unwrap(), None);
                proof {
                    use_type_invariant(&*self);
                }
                Err(AuthError::TokenExpired)
            },
            TokenStep::Live(name) => decide_grant(&self.grants, name, capability),
        }
    }
}

/// The view of an account that was copied out, if one was.
pub open spec fn account_copy(found: Option<Account>) -> Option<AccountView> {
    match found {
        Some(a) => Some(a@),
        None => None,
    }
}

/// The view of what a login returns.
pub open spec fn session_result(opened: Result<Session, AuthError>) -> Result<
    SessionView,
    AuthError,
> {
    match opened {
        Ok(s) => Ok(s@),
        Err(e) => Err(e),
    }
}

/// The view of what an authorization returns.
pub open spec fn name_result(verdict: Result<String, AuthError>) -> Result<Seq<char>, AuthError> {
    match verdict {
        Ok(name) => Ok(name@),
        Err(e) => Err(e),
    }
}

} // verus!
