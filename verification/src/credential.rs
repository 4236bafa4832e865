//! Password digests and session tokens, both made by outside primitives.

use vstd::prelude::*;

verus! {

/// What `bcrypt::verify` makes of a password and a stored digest: `Some(true)` where
/// the digest is one of the password, `Some(false)` where it is one of another
/// password, `None` where the digest cannot be read. It depends on the two texts
/// alone.
pub uninterp spec fn bcrypt_verdict(password: Seq<char>, digest: Seq<char>) -> Option<bool>;

/// `bcrypt::hash` at `bcrypt::DEFAULT_COST`: a digest of the password under a salt
/// drawn at random, so two calls differ. The contract claims one thing of a digest
/// that comes back: `bcrypt::verify` accepts it for the same password. `verify`
/// reads the salt and the cost out of the digest, hashes the password again with
/// them, and compares; the crate's own tests check the pair on arbitrary passwords.
#[verifier::external_body]
pub(crate) fn hash_password(password: &str) -> (r: Result<String, bcrypt::BcryptError>)
    ensures
        r matches Ok(digest) ==> bcrypt_verdict(password@, digest@) == Some(true),
{
    bcrypt::hash(password, bcrypt::DEFAULT_COST)
}

/// `bcrypt::verify`, with its error turned into `None`. The contract gives the
/// answer its name.
#[verifier::external_body]
pub(crate) fn check_password(password: &str, digest: &str) -> (r: Option<bool>)
    ensures
        r == bcrypt_verdict(password@, digest@),
{
    bcrypt::verify(password, digest).ok()
}

/// `uuid::Uuid::new_v4` in its hyphenated form: 36 characters, drawn at random. It
/// panics where the system has no randomness to give.
#[verifier::external_body]
pub(crate) fn fresh_token() -> (r: String)
    ensures
        r@.len() == 36,
{
    uuid::Uuid::new_v4().to_string()
}

} // verus!
