//! Password hashing and verification, through bcrypt. The verifier's whole
//! outcome is a function of the password and the stored hash string alone
//! (salt and cost travel inside the hash), so it is given a name that the
//! rest of the library's contracts speak of.
use vstd::prelude::*;

verus! {

#[verifier::external_type_specification]
#[verifier::external_body]
pub struct ExBcryptError(bcrypt::BcryptError);

/// What `bcrypt::verify` returns for a password and a stored hash string:
/// `None` when the call errors (the hash string does not parse as a bcrypt
/// hash), otherwise `Some` of whether the password matches. Deterministic in
/// its two arguments on every machine.
pub uninterp spec fn bcrypt_verify_outcome(pw: Seq<char>, hashed: Seq<char>) -> Option<bool>;

/// True exactly when bcrypt accepts `pw` against the stored hash.
pub open spec fn bcrypt_matches(pw: Seq<char>, hashed: Seq<char>) -> bool {
    bcrypt_verify_outcome(pw, hashed) == Option::Some(true)
}

/// Relies on `bcrypt::verify`: it parses salt and cost out of the hash
/// string and errs exactly when that fails, else re-derives the hash from
/// the password and compares; the outcome depends on the two arguments
/// alone, and a mismatched password is `Ok(false)`, never an error.
#[verifier::external_body]
pub fn verify_password(pw: &str, hashed: &str) -> (r: Result<bool, bcrypt::BcryptError>)
    ensures
        r is Ok <==> bcrypt_verify_outcome(pw@, hashed@) is Some,
        r is Ok ==> r->Ok_0 == bcrypt_verify_outcome(pw@, hashed@)->Some_0,
{
    bcrypt::verify(pw, hashed)
}

/// Relies on `bcrypt::hash` at the crate's default cost: on success the
/// result is a salted hash string that `bcrypt::verify` accepts against the
/// same password, whatever salt was drawn.
#[verifier::external_body]
pub fn hash_password(pw: &str) -> (r: Result<String, bcrypt::BcryptError>)
    ensures
        r is Ok ==> bcrypt_matches(pw@, r->Ok_0@),
{
    bcrypt::hash(pw, bcrypt::DEFAULT_COST)
}

} // verus!
