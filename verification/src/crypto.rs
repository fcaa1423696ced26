//! The credential hashing the server relies on. What a hash looks like is
//! left to the bcrypt crate; the contracts name only the verification
//! relation between a password and a stored hash.
use vstd::prelude::*;

verus! {

/// Whether bcrypt verification accepts a password against a stored hash.
/// Verification recomputes the hash from the cost and salt embedded in the
/// stored string, so it is a function of the two strings alone.
pub uninterp spec fn bcrypt_matches(password: Seq<char>, hash: Seq<char>) -> bool;

/// Relies on bcrypt::hash: it salts and hashes the password such that
/// bcrypt::verify accepts the password against the returned string. The
/// salt is drawn from OS randomness, so a failure of that source surfaces
/// as `None`, and nothing else is promised of the hash's shape.
#[verifier::external_body]
pub(crate) fn hash_password(password: &String) -> (r: Option<String>)
    ensures
        r is Some ==> bcrypt_matches(password@, r.unwrap()@),
{
    match bcrypt::hash(password.as_str(), bcrypt::DEFAULT_COST) {
        Ok(h) => Some(h),
        Err(_) => None,
    }
}

/// Relies on bcrypt::verify: deterministic in the password and the hash; a
/// malformed stored hash is reported as an error, which counts as a
/// mismatch here, exactly as a wrong password does.
#[verifier::external_body]
pub(crate) fn verify_password(password: &String, hash: &String) -> (r: bool)
    ensures
        r == bcrypt_matches(password@, hash@),
{
    bcrypt::verify(password.as_str(), hash.as_str()).unwrap_or(false)
}

} // verus!
