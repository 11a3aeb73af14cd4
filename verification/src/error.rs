//! The ways in which an operation of this library can fail.

use vstd::prelude::*;

verus! {

/// Why an operation was refused.
#[derive(Debug, Clone, Copy, PartialEq, Eq, Structural)]
pub enum AuthError {
    /// An account of that name exists already.
    DuplicateAccount,
    /// No account has that name.
    AccountNotFound,
    /// The account's expiration date has passed; the account was removed.
    AccountExpired,
    /// The password does not match the stored digest.
    InvalidCredentials,
    /// No token was presented.
    NoToken,
    /// No account holds the presented token.
    UnknownToken,
    /// The token's lifetime is over; it was cleared.
    TokenExpired,
    /// The account lacks the required capability.
    Forbidden,
    /// A submitted tag is not in the vocabulary.
    UnrecognizedTag,
    /// The store refused a write.
    StorageFailure,
}

impl AuthError {
    /// A sentence for the person who made the request.
    pub fn message(&self) -> (text: &'static str)
        ensures
            text@ == match *self {
                AuthError::DuplicateAccount => "An account with this username already exists."@,
                AuthError::AccountNotFound => "Invalid username or password."@,
                AuthError::AccountExpired => "Admin account has expired and has been removed."@,
                AuthError::InvalidCredentials => "Invalid username or password."@,
                AuthError::NoToken => "No valid token found."@,
                AuthError::UnknownToken => "Token does not exist."@,
                AuthError::TokenExpired => "Token has expired."@,
                AuthError::Forbidden => "User did not have correct permissions"@,
                AuthError::UnrecognizedTag => "Invalid tag name"@,
                AuthError::StorageFailure => "Database error"@,
            },
    {
        match self {
            AuthError::DuplicateAccount => "An account with this username already exists.",
            AuthError::AccountNotFound => "Invalid username or password.",
            AuthError::AccountExpired => "Admin account has expired and has been removed.",
            AuthError::InvalidCredentials => "Invalid username or password.",
            AuthError::NoToken => "No valid token found.",
            AuthError::UnknownToken => "Token does not exist.",
            AuthError::TokenExpired => "Token has expired.",
            AuthError::Forbidden => "User did not have correct permissions",
            AuthError::UnrecognizedTag => "Invalid tag name",
            AuthError::StorageFailure => "Database error",
        }
    }
}

} // verus!
