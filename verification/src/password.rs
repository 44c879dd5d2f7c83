//! Password hashing, done by the `bcrypt` crate.
use vstd::prelude::*;

verus! {

/// The cost that passwords are hashed with unless another is asked for.
pub const DEFAULT_COST: u32 = 12;

/// The lowest cost that the hash takes.
pub const MIN_COST: u32 = 4;

/// The highest cost that the hash takes.
pub const MAX_COST: u32 = 31;

/// What `bcrypt::verify` answers for `password` against `hash`: whether the
/// two match, or `None` where `hash` is no bcrypt hash.
pub uninterp spec fn password_verdict(password: Seq<char>, hash: Seq<char>) -> Option<bool>;

/// The error type of the `bcrypt` crate.
#[verifier::external_type_specification]
#[verifier::external_body]
pub struct ExBcryptError(bcrypt::BcryptError);

/// Hashes `password` with `bcrypt::hash`, under a salt that the call draws at
/// random.
///
/// Trusted: a hash that comes back matches the password it was made of. The
/// call may fail, and two calls on one password give different hashes.
#[verifier::external_body]
pub(crate) fn bcrypt_hash(password: &str, cost: u32) -> (r: Result<String, bcrypt::BcryptError>)
    ensures
        r matches Ok(hash) ==> password_verdict(password@, hash@) == Some(true),
{
    bcrypt::hash(password, cost)
}

/// Holds `password` against `hash` with `bcrypt::verify`, which compares in
/// constant time.
///
/// Trusted: the answer is a function of the two strings, named
/// [`password_verdict`]; the call fails where `hash` is no bcrypt hash.
#[verifier::external_body]
pub(crate) fn bcrypt_verify(password: &str, hash: &str) -> (r: Result<bool, bcrypt::BcryptError>)
    ensures
        r matches Ok(matched) ==> password_verdict(password@, hash@) == Some(matched),
        r is Err ==> password_verdict(password@, hash@) is None,
{
    bcrypt::verify(password, hash)
}

/// Whether `password` is the one that `hash` was made of. A `hash` that is no
/// bcrypt hash matches nothing.
pub open spec fn password_matches(password: Seq<char>, hash: Seq<char>) -> bool {
    password_verdict(password, hash) == Some(true)
}

/// The salted hash of `password` at `cost`; `None` for a cost that the hash
/// does not take, and where the salt could not be drawn.
pub fn hash_password(password: &str, cost: u32) -> (r: Option<String>)
    ensures
        !(MIN_COST <= cost <= MAX_COST) ==> r is None,
        r matches Some(hash) ==> password_matches(password@, hash@),
{
    if cost < MIN_COST || cost > MAX_COST {
        return None;
    }
    match bcrypt_hash(password, cost) {
        Ok(hash) => Some(hash),
        Err(_) => None,
    }
}

/// Whether `password` matches `hash`.
pub fn check_password(password: &str, hash: &str) -> (matched: bool)
    ensures
        matched == password_matches(password@, hash@),
{
    match bcrypt_verify(password, hash) {
        Ok(matched) => matched,
        Err(_) => false,
    }
}

} // verus!
