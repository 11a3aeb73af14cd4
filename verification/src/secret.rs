//! Fresh random material: salts and session tokens.

use vstd::prelude::*;

verus! {

/// Whether `c` is an ASCII letter or digit.
pub open spec fn is_alphanumeric(c: char) -> bool {
    ||| 'a' <= c <= 'z'
    ||| 'A' <= c <= 'Z'
    ||| '0' <= c <= '9'
}

/// Whether `s` is made of ASCII letters and digits only.
pub open spec fn all_alphanumeric(s: Seq<char>) -> bool {
    forall|i: int| 0 <= i < s.len() ==> is_alphanumeric(#[trigger] s[i])
}

/// The length of a session token.
pub const TOKEN_LENGTH: usize = 36;

/// Draws `length` characters from `rand::distributions::Alphanumeric` with
/// `rand::thread_rng`. Each one is an ASCII letter or digit.
#[verifier::external_body]
pub(crate) fn random_salt(length: usize) -> (salt: String)
    ensures
        salt@.len() == length,
        all_alphanumeric(salt@),
{
    let rng = rand::thread_rng();
    rand::Rng::sample_iter(rng, &rand::distributions::Alphanumeric)
        .take(length)
        .map(char::from)
        .collect()
}

/// Calls `uuid::Uuid::new_v4` and writes the identifier in its hyphenated
/// form, which is 36 characters long.
#[verifier::external_body]
pub(crate) fn random_token() -> (token: String)
    ensures
        token@.len() == TOKEN_LENGTH,
{
    uuid::Uuid::new_v4().to_string()
}

} // verus!
