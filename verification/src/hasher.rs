//! Password hashing and verification.
//!
//! A password is never hashed bare: a site-wide secret (the "pepper") is
//! concatenated in front of it first, and only the peppered string reaches
//! the memory-hard hash. Hashing derives a fresh random salt per call and
//! returns a self-describing hash string carrying the algorithm parameters,
//! the salt and the digest; verification re-applies the pepper, re-derives
//! the digest under the stored parameters and compares in constant time.

use vstd::prelude::*;
use vstd::string::StringExecFns;

use crate::errors::Error;

verus! {

/// Whether `password` re-hashed under the salt and parameters embedded in
/// the self-describing hash string `hash` yields the digest that `hash`
/// carries. This is a pure function of the two strings: verification
/// re-derives the digest deterministically from them alone.
pub uninterp spec fn password_matches(hash: Seq<char>, password: Seq<char>) -> bool;

/// Relies on `argon2::Argon2::hash_password` (with a random per-call salt)
/// and on `PasswordVerifier::verify_password`: a hash produced for a
/// password verifies against that same password, since verification
/// re-derives the digest with the salt and parameters stored in the hash.
#[verifier::external_body]
fn argon2_hash(password: &str) -> (r: Result<String, ()>)
    ensures
        r matches Ok(h) ==> password_matches(h@, password@),
{
    let argon2 = argon2::Argon2::default();
    match argon2::PasswordHasher::hash_password(&argon2, password.as_bytes()) {
        Ok(hash) => Ok(hash.to_string()),
        Err(_) => Err(()),
    }
}

/// Relies on `argon2::PasswordVerifier::<str>::verify_password`: parses the
/// self-describing hash string, re-derives the digest for `password` under
/// the parsed salt and parameters, and compares in constant time. A
/// malformed hash string, a parse failure and a digest mismatch are all
/// reported alike as "does not match".
#[verifier::external_body]
fn argon2_verify(hash: &str, password: &str) -> (r: bool)
    ensures
        r == password_matches(hash@, password@),
{
    let argon2 = argon2::Argon2::default();
    argon2::PasswordVerifier::<str>::verify_password(&argon2, password.as_bytes(), hash).is_ok()
}

/// Prefix the user-supplied password with the site-wide pepper.
fn sprinkle_pepper(pepper: &str, pw_input: &str) -> (r: String)
    ensures
        r@ == pepper@ + pw_input@,
{
    let peppered = pepper.to_owned();
    peppered.concat(pw_input)
}

/// Hash `pw_input` under `pepper`: the returned self-describing hash string
/// matches exactly the peppered password. Fails only on an internal error
/// of the hashing primitive, never for any particular password value.
pub fn get_new_hashed_password(pepper: &str, pw_input: &str) -> (r: Result<String, Error>)
    ensures
        r matches Ok(h) ==> password_matches(h@, pepper@ + pw_input@),
        r matches Err(e) ==> e == Error::InternalServerError,
{
    let peppered = sprinkle_pepper(pepper, pw_input);
    match argon2_hash(peppered.as_str()) {
        Ok(hash) => Ok(hash),
        Err(_) => Err(Error::InternalServerError),
    }
}

/// Verify `candidate_pw` against a stored hash under `pepper`: true exactly
/// when the peppered candidate matches the hash. A malformed stored hash,
/// a parsing error and a plain mismatch are indistinguishable to the
/// caller, so the result leaks nothing beyond match / no match.
pub fn verify_password(candidate_hash: &str, candidate_pw: &str, pepper: &str) -> (r: bool)
    ensures
        r == password_matches(candidate_hash@, pepper@ + candidate_pw@),
{
    let peppered = sprinkle_pepper(pepper, candidate_pw);
    argon2_verify(candidate_hash, peppered.as_str())
}

} // verus!
