//! Properties of the library, proved from the definitions that its
//! contracts use.

use vstd::prelude::*;
use crate::account::SessionView;
use crate::attribute::{
    canonical, classify, classify_all, decoded, encoded, token_of, tokens_of, TagView,
};
use crate::clock::Date;
use crate::digest::{password_digest, sha256_digest};
use crate::error::AuthError;
use crate::policy::{is_granted, is_live, password_matches};
use crate::store::StoreView;
use crate::text::{closed_words, has_space, is_space, joined, last_run, words};

verus! {

/// The run that a text ends with holds no whitespace, and neither does any
/// of its words; no word is empty.
pub proof fn lemma_words_are_clean(s: Seq<char>)
    ensures
        !has_space(last_run(s)),
        forall|i: int|
            0 <= i < closed_words(s).len() ==> (#[trigger] closed_words(s)[i]).len() > 0
                && !has_space(closed_words(s)[i]),
        forall|i: int|
            0 <= i < words(s).len() ==> (#[trigger] words(s)[i]).len() > 0 && !has_space(
                words(s)[i],
            ),
    decreases s.len(),
{
    let run = last_run(s);
    let closed = closed_words(s);
    if s.len() > 0 {
        let front = s.drop_last();
        lemma_words_are_clean(front);
        if is_space(s.last()) {
            assert(closed == words(front));
        } else {
            assert(closed == closed_words(front));
            assert(run == last_run(front).push(s.last()));
            if has_space(run) {
                let k = choose|k: int| 0 <= k < run.len() && is_space(#[trigger] run[k]);
                if k < run.len() - 1 {
                    assert(is_space(last_run(front)[k]));
                }
            }
        }
    } else {
        assert(run.len() == 0);
        assert(closed.len() == 0);
    }
    assert forall|i: int| 0 <= i < words(s).len() implies (#[trigger] words(s)[i]).len() > 0
        && !has_space(words(s)[i]) by {
        if run.len() > 0 && i == closed.len() {
            assert(words(s)[i] == run);
        } else {
            assert(words(s)[i] == closed[i]);
        }
    }
}

/// A space-free text at the end of `s` extends the run that `s` ends with
/// and closes no word.
pub proof fn lemma_append_word(s: Seq<char>, w: Seq<char>)
    requires
        !has_space(w),
    ensures
        last_run(s + w) == last_run(s) + w,
        closed_words(s + w) == closed_words(s),
    decreases w.len(),
{
    if w.len() == 0 {
        assert(s + w == s);
        assert(last_run(s) + w == last_run(s));
    } else {
        let front = w.drop_last();
        assert(!is_space(w[w.len() - 1]));
        assert(!has_space(front)) by {
            if has_space(front) {
                let i = choose|i: int| 0 <= i < front.len() && is_space(#[trigger] front[i]);
                assert(is_space(w[i]));
            }
        }
        lemma_append_word(s, front);
        assert((s + w).drop_last() == s + front);
        assert((s + w).last() == w.last());
        assert(last_run(s) + front + seq![w.last()] == last_run(s) + w);
        assert(last_run(s + front).push(w.last()) == last_run(s) + w);
    }
}

/// One space at the end of `s` closes the run that `s` ends with.
pub proof fn lemma_append_space(s: Seq<char>)
    ensures
        last_run(s + " "@).len() == 0,
        closed_words(s + " "@) == words(s),
{
    reveal_strlit(" ");
    let t = s + " "@;
    assert(t.last() == ' ');
    assert(is_space(' '));
    assert(t.drop_last() == s);
}

/// Splitting what `joined` made out of non-empty, space-free parts gives the
/// parts back.
pub proof fn lemma_words_of_joined(parts: Seq<Seq<char>>)
    requires
        forall|i: int| 0 <= i < parts.len() ==> (#[trigger] parts[i]).len() > 0 && !has_space(parts[i]),
    ensures
        words(joined(parts, " "@)) == parts,
    decreases parts.len(),
{
    let empty = Seq::<char>::empty();
    if parts.len() == 0 {
    } else if parts.len() == 1 {
        lemma_append_word(empty, parts[0]);
        assert(empty + parts[0] == parts[0]);
        assert(seq![parts[0]] == parts);
        assert(Seq::<Seq<char>>::empty().push(parts[0]) == parts);
    } else {
        let front = parts.drop_last();
        let head = joined(front, " "@);
        lemma_words_of_joined(front);
        lemma_append_space(head);
        lemma_append_word(head + " "@, parts.last());
        assert(empty + parts.last() == parts.last());
        assert(front.push(parts.last()) == parts);
    }
}

/// Reading what `to_string` writes for an attribute gives the attribute
/// back, with its label in the form in which it is shown. A fastening is
/// written as exactly `fitted` or `snap` and comes back unchanged.
pub proof fn lemma_classify_token(tag: TagView)
    ensures
        classify(token_of(tag)) == Some(canonical(tag)),
        tag is Fitted ==> classify(token_of(tag)) == Some(tag),
        token_of(TagView::Fitted(true)) == "fitted"@,
        token_of(TagView::Fitted(false)) == "snap"@,
{
    reveal_strlit("size");
    reveal_strlit("color");
    reveal_strlit("fitted");
    reveal_strlit("snap");
    let token = token_of(tag);
    match tag {
        TagView::Size(label) => {
            assert(token.take(4) == "size"@);
            assert(token.skip(4) == canonical(tag)->Size_0);
        },
        TagView::Color(label) => {
            assert(token[0] == 'c');
            assert(token.take(4)[0] == 'c');
            assert(token.take(5) == "color"@);
            assert(token.skip(5) == canonical(tag)->Color_0);
        },
        TagView::Fitted(fitted) => {
            if fitted {
                assert(token.take(4)[0] == 'f');
                assert(token.take(5)[0] == 'f');
            } else {
                assert(token.take(4)[1] == 'n');
            }
        },
    }
}

/// Reading the tokens of attributes gives the attributes back, in order.
pub proof fn lemma_classify_tokens(tags: Seq<TagView>)
    ensures
        classify_all(tokens_of(tags)) == tags.map_values(|t: TagView| canonical(t)),
    decreases tags.len(),
{
    let shown = tags.map_values(|t: TagView| canonical(t));
    if tags.len() == 0 {
        assert(classify_all(tokens_of(tags)) == shown);
    } else {
        let front = tags.drop_last();
        lemma_classify_tokens(front);
        lemma_classify_token(tags.last());
        assert(tokens_of(tags).drop_last() == tokens_of(front));
        assert(tokens_of(tags).last() == token_of(tags.last()));
        assert(front.map_values(|t: TagView| canonical(t)).push(canonical(tags.last())) == shown);
    }
}

/// Decoding what was encoded gives the same attributes in the same order,
/// each with its label as it is shown; a fastening comes back unchanged. This
/// holds where no token holds whitespace.
pub proof fn lemma_decode_encode(tags: Seq<TagView>)
    requires
        forall|i: int| 0 <= i < tags.len() ==> !has_space(token_of(#[trigger] tags[i])),
    ensures
        decoded(encoded(tags)) == tags.map_values(|t: TagView| canonical(t)),
        forall|i: int|
            0 <= i < tags.len() && (#[trigger] tags[i]) is Fitted ==> decoded(encoded(tags))[i]
                == tags[i],
{
    reveal_strlit("size");
    reveal_strlit("color");
    reveal_strlit("fitted");
    reveal_strlit("snap");
    let parts = tokens_of(tags);
    assert forall|i: int| 0 <= i < parts.len() implies (#[trigger] parts[i]).len() > 0 && !has_space(
        parts[i],
    ) by {
        assert(parts[i] == token_of(tags[i]));
    }
    lemma_words_of_joined(parts);
    lemma_classify_tokens(tags);
}

/// Encoding no attribute gives the empty text, and decoding the empty text
/// gives no attribute.
pub proof fn lemma_empty_text()
    ensures
        encoded(Seq::<TagView>::empty()).len() == 0,
        decoded(Seq::<char>::empty()).len() == 0,
{
}

/// The digest depends on password and salt alone: equal inputs give equal
/// digests. It has two characters for each byte of the SHA-256 digest.
pub proof fn lemma_digest_is_function(
    password: Seq<char>,
    salt: Seq<char>,
    other_password: Seq<char>,
    other_salt: Seq<char>,
)
    requires
        password == other_password,
        salt == other_salt,
    ensures
        password_digest(password, salt) == password_digest(other_password, other_salt),
        password_digest(password, salt).len() == 2 * sha256_digest(
            vstd::utf8::encode_utf8(password + salt),
        ).len(),
{
}

/// After a logout no account holds the token, and a second logout with the
/// same token changes nothing.
pub proof fn lemma_logout_idempotent(s: StoreView, token: Seq<char>)
    requires
        s.well_formed(),
    ensures
        !s.logged_out(token).has_token(token),
        s.logged_out(token).logged_out(token) == s.logged_out(token),
        s.logged_out(token).well_formed(),
{
    let out = s.logged_out(token);
    if s.has_token(token) {
        let i = s.holder_index(token);
        assert forall|k: int| 0 <= k < out.accounts.len() implies !(#[trigger] out.accounts[k]).holds(
            token,
        ) by {
            if k != i && s.accounts[k].holds(token) {
                s.lemma_one_holder(token, i, k);
            }
        }
        s.lemma_with_session_keeps_form(i, None);
    }
}

/// A logout with a token that no account holds changes nothing.
pub proof fn lemma_logout_unknown_token(s: StoreView, token: Seq<char>)
    requires
        !s.has_token(token),
    ensures
        s.logged_out(token) == s,
{
}

/// A session that ends at the very second of the check has expired: the
/// check fails with `TokenExpired` and clears the session. Only a session
/// that ends later is live.
pub proof fn lemma_expiry_boundary(
    s: StoreView,
    token: Seq<char>,
    capability: Seq<char>,
    now: int,
)
    requires
        s.well_formed(),
        token.len() > 0,
        s.holder(token) matches Some(a) && a.session matches Some(session) && session.expires_at
            == now,
    ensures
        s.authorize_result(token, capability, now) == (
            Err::<Seq<char>, AuthError>(AuthError::TokenExpired),
            s.logged_out(token),
        ),
        !s.authorize_result(token, capability, now).1.has_token(token),
        s.authorize_result(token, capability, now).1.authorize_result(token, capability, now).0
            == Err::<Seq<char>, AuthError>(AuthError::UnknownToken),
{
    lemma_logout_idempotent(s, token);
}

/// Authorization succeeds exactly when a token is presented, an account
/// holds it, its session ends after `now`, and the account has the grant of
/// the capability; it then returns the account's name and changes nothing.
pub proof fn lemma_authorized_iff(s: StoreView, token: Seq<char>, capability: Seq<char>, now: int)
    ensures
        s.authorize_result(token, capability, now).0 is Ok <==> token.len() > 0 && (s.holder(
            token,
        ) matches Some(a) && a.session matches Some(session) && is_live(session, now) && is_granted(
            s.grants,
            a.username,
            capability,
        )),
        s.authorize_result(token, capability, now).0 matches Ok(name) ==> s.holder(
            token,
        ).unwrap().username == name && s.authorize_result(token, capability, now).1 == s,
{
}

/// Expiry is checked before the capability: an expired token gives
/// `TokenExpired` whatever capability is asked for.
pub proof fn lemma_expiry_before_capability(
    s: StoreView,
    token: Seq<char>,
    c1: Seq<char>,
    c2: Seq<char>,
    now: int,
)
    requires
        s.authorize_result(token, c1, now).0 == Err::<Seq<char>, AuthError>(
            AuthError::TokenExpired,
        ),
    ensures
        s.authorize_result(token, c2, now) == s.authorize_result(token, c1, now),
{
}

/// A failed authorization changes the store only where the token had
/// expired.
pub proof fn lemma_refusal_keeps_store(
    s: StoreView,
    token: Seq<char>,
    capability: Seq<char>,
    now: int,
)
    requires
        s.authorize_result(token, capability, now).0 != Err::<Seq<char>, AuthError>(
            AuthError::TokenExpired,
        ),
    ensures
        s.authorize_result(token, capability, now).1 == s,
{
}

/// A login that fails for a wrong password, an unknown name or a token in
/// use leaves the store as it was: no session is opened or altered.
pub proof fn lemma_failed_login_keeps_store(
    s: StoreView,
    username: Seq<char>,
    password: Seq<char>,
    today: Date,
    now: int,
    ttl: int,
    token: Seq<char>,
)
    requires
        s.login_result(username, password, today, now, ttl, token).0 matches Err(e) && e
            != AuthError::AccountExpired,
    ensures
        s.login_result(username, password, today, now, ttl, token).1 == s,
{
}

/// A login refused for an expired account removes the account: a lookup of
/// the name finds nothing afterwards.
pub proof fn lemma_expired_account_removed(
    s: StoreView,
    username: Seq<char>,
    password: Seq<char>,
    today: Date,
    now: int,
    ttl: int,
    token: Seq<char>,
)
    requires
        s.well_formed(),
        s.login_result(username, password, today, now, ttl, token).0 == Err::<
            SessionView,
            AuthError,
        >(AuthError::AccountExpired),
    ensures
        s.account(username) matches Some(a) && today.is_after(a.expiration),
        s.login_result(username, password, today, now, ttl, token).1.account(username) is None,
        s.login_result(username, password, today, now, ttl, token).1.grants == s.grants,
{
    let i = s.index_of(username);
    let after = s.login_result(username, password, today, now, ttl, token).1;
    assert(after.accounts == s.accounts.remove(i));
    assert forall|k: int| 0 <= k < after.accounts.len() implies (#[trigger] after.accounts[k]).username
        != username by {
        let k0 = if k < i { k } else { k + 1 };
        assert(after.accounts[k] == s.accounts[k0]);
        if k0 < i {
            assert(s.accounts[k0].username != s.accounts[i].username);
        } else {
            assert(s.accounts[i].username != s.accounts[k0].username);
        }
    }
}

/// After a successful login the account of that name, and no other, holds
/// the issued token, in a session that ends `ttl` seconds after `now`.
pub proof fn lemma_login_holder(
    s: StoreView,
    username: Seq<char>,
    password: Seq<char>,
    today: Date,
    now: int,
    ttl: int,
    token: Seq<char>,
)
    requires
        s.well_formed(),
        s.login_result(username, password, today, now, ttl, token).0 is Ok,
    ensures
        s.has_name(username),
        s.login_result(username, password, today, now, ttl, token).1.has_token(token),
        s.login_result(username, password, today, now, ttl, token).1.holder_index(token)
            == s.index_of(username),
        s.login_result(username, password, today, now, ttl, token).1.accounts
            == s.accounts.update(
            s.index_of(username),
            s.accounts[s.index_of(username)].with_session(
                Some(SessionView { token, expires_at: now + ttl }),
            ),
        ),
{
    let i = s.index_of(username);
    let after = s.login_result(username, password, today, now, ttl, token).1;
    assert(after.accounts[i].holds(token));
    let h = after.holder_index(token);
    assert(after.accounts[h].holds(token));
    if h != i {
        assert(s.accounts[h].holds(token));
        assert(s.accounts[h].username != username) by {
            if h < i {
                assert(s.accounts[h].username != s.accounts[i].username);
            } else {
                assert(s.accounts[i].username != s.accounts[h].username);
            }
        }
        assert(s.token_taken(username, token));
    }
}

/// After a successful login the account holds the issued token and no other:
/// the token of an earlier session of the same account is known to nobody.
pub proof fn lemma_login_replaces_token(
    s: StoreView,
    username: Seq<char>,
    password: Seq<char>,
    today: Date,
    now: int,
    ttl: int,
    token: Seq<char>,
    earlier: Seq<char>,
)
    requires
        s.well_formed(),
        s.login_result(username, password, today, now, ttl, token).0 is Ok,
        s.account(username) matches Some(a) && a.holds(earlier),
        earlier != token,
    ensures
        s.login_result(username, password, today, now, ttl, token).1.holder(token) matches Some(a)
            && a.username == username && a.session == Some(
            SessionView { token, expires_at: now + ttl },
        ),
        s.login_result(username, password, today, now, ttl, token).1.holder(earlier) is None,
{
    let i = s.index_of(username);
    let after = s.login_result(username, password, today, now, ttl, token).1;
    lemma_login_holder(s, username, password, today, now, ttl, token);
    assert forall|k: int| 0 <= k < after.accounts.len() implies !(#[trigger] after.accounts[k]).holds(
        earlier,
    ) by {
        if k != i && s.accounts[k].holds(earlier) {
            s.lemma_one_holder(earlier, i, k);
        }
    }
}

/// After a successful login, the issued token authorizes every capability
/// that the account is granted, at every second before the session ends, and
/// no other capability.
pub proof fn lemma_login_then_authorized(
    s: StoreView,
    username: Seq<char>,
    password: Seq<char>,
    today: Date,
    now: int,
    ttl: int,
    token: Seq<char>,
    capability: Seq<char>,
    later: int,
)
    requires
        s.well_formed(),
        s.login_result(username, password, today, now, ttl, token).0 is Ok,
        token.len() > 0,
        later < now + ttl,
    ensures
        s.login_result(username, password, today, now, ttl, token).1.authorize_result(
            token,
            capability,
            later,
        ).0 == if is_granted(s.grants, username, capability) {
            Ok::<Seq<char>, AuthError>(username)
        } else {
            Err::<Seq<char>, AuthError>(AuthError::Forbidden)
        },
{
    lemma_login_holder(s, username, password, today, now, ttl, token);
}

/// Every operation leaves a well-formed store well formed: names stay
/// unique, tokens stay unique, and no grant occurs twice.
pub proof fn lemma_operations_keep_well_formed(
    s: StoreView,
    username: Seq<char>,
    password: Seq<char>,
    expiration: Date,
    capability: Seq<char>,
    salt: Seq<char>,
    today: Date,
    now: int,
    ttl: int,
    token: Seq<char>,
)
    requires
        s.well_formed(),
    ensures
        !s.has_name(username) ==> s.created(
            username,
            password,
            expiration,
            capability,
            salt,
        ).well_formed(),
        s.login_result(username, password, today, now, ttl, token).1.well_formed(),
        s.logged_out(token).well_formed(),
        s.authorize_result(token, capability, now).1.well_formed(),
{
    lemma_logout_idempotent(s, token);
    if !s.has_name(username) {
        s.lemma_created_keeps_form(username, password, expiration, capability, salt);
    }
    let after = s.login_result(username, password, today, now, ttl, token).1;
    if after != s {
        let i = s.index_of(username);
        if after.accounts.len() < s.accounts.len() {
            s.lemma_without_account_keeps_form(i);
        } else {
            s.lemma_with_session_keeps_form(
                i,
                Some(SessionView { token, expires_at: now + ttl }),
            );
        }
    }
}

/// A new account has no session: nobody can be authorized for it before a
/// login.
pub proof fn lemma_created_without_session(
    s: StoreView,
    username: Seq<char>,
    password: Seq<char>,
    expiration: Date,
    capability: Seq<char>,
    salt: Seq<char>,
)
    ensures
        s.created(username, password, expiration, capability, salt).accounts.last().session is None,
        password_matches(
            s.created(username, password, expiration, capability, salt).accounts.last(),
            password,
        ),
        is_granted(
            s.created(username, password, expiration, capability, salt).grants,
            username,
            capability,
        ),
{
    let after = s.created(username, password, expiration, capability, salt);
    if !is_granted(s.grants, username, capability) {
        assert(after.grants.last() == (crate::account::GrantView { username, capability }));
    }
}

} // verus!
