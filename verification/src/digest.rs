//! Salted password digests: SHA-256 over the password followed by the salt,
//! written as lowercase hexadecimal.

use vstd::prelude::*;
use vstd::string::StringExecFns;

verus! {

/// The SHA-256 digest of a byte string, as the `sha2` crate computes it.
pub uninterp spec fn sha256_digest(data: Seq<u8>) -> Seq<u8>;

/// The lowercase hexadecimal digit for a value below sixteen.
pub open spec fn hex_digit(nibble: int) -> char {
    if nibble < 10 {
        (('0' as int) + nibble) as char
    } else {
        (('a' as int) + nibble - 10) as char
    }
}

/// Lowercase hexadecimal text of a byte string: two digits per byte, the high
/// half first.
pub open spec fn hex_text(data: Seq<u8>) -> Seq<char> {
    Seq::new(
        2 * data.len(),
        |i: int| if i % 2 == 0 {
            hex_digit(data[i / 2] as int / 16)
        } else {
            hex_digit(data[i / 2] as int % 16)
        },
    )
}

/// Calls `sha2::Sha256` on `data` (new, update, finalize). The result is the
/// SHA-256 digest of `data`, which is always 32 bytes long.
#[verifier::external_body]
fn sha256(data: &[u8]) -> (out: Vec<u8>)
    ensures
        out@ == sha256_digest(data@),
        out@.len() == 32,
{
    let mut hasher = <sha2::Sha256 as sha2::Digest>::new();
    sha2::Digest::update(&mut hasher, data);
    sha2::Digest::finalize(hasher).to_vec()
}

/// Calls `hex::encode` on `data`. The result holds two lowercase hexadecimal
/// digits for each byte, in order, the high four bits first.
#[verifier::external_body]
fn hex_encode(data: &[u8]) -> (out: String)
    ensures
        out@ == hex_text(data@),
{
    hex::encode(data)
}

/// What `hash_password` returns for a given text.
pub open spec fn digest_text(salted: Seq<char>) -> Seq<char> {
    hex_text(sha256_digest(vstd::utf8::encode_utf8(salted)))
}

/// Digest of an already salted password.
pub fn hash_password(password: &str) -> (digest: String)
    ensures
        digest@ == digest_text(password@),
        digest@.len() == 64,
{
    let raw = sha256(password.as_bytes());
    hex_encode(raw.as_slice())
}

/// The digest that is stored for `password` under `salt`: the digest of the
/// password followed by the salt.
pub open spec fn password_digest(password: Seq<char>, salt: Seq<char>) -> Seq<char> {
    digest_text(password + salt)
}

/// Digest of `password` under `salt`.
pub fn hash(password: &str, salt: &str) -> (digest: String)
    ensures
        digest@ == password_digest(password@, salt@),
        digest@.len() == 64,
{
    let mut salted = password.to_owned();
    salted.append(salt);
    hash_password(salted.as_str())
}

} // verus!
