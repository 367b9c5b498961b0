//! Password hashing with PBKDF2, in the PHC string format.

use pbkdf2::password_hash::rand_core::OsRng;
use pbkdf2::password_hash::{PasswordHash, PasswordHasher, PasswordVerifier, SaltString};
use pbkdf2::Pbkdf2;
use vstd::prelude::*;

verus! {

/// Whether `PasswordHash::new` reads a text as a PHC string.
pub uninterp spec fn phc_well_formed(hash: Seq<char>) -> bool;

/// Whether `Pbkdf2.verify_password` accepts a password for the hash that a
/// PHC string holds.
pub uninterp spec fn pbkdf2_accepts(password: Seq<char>, hash: Seq<char>) -> bool;

/// Whether a text is a PHC string whose hash accepts the password.
pub open spec fn hash_of(password: Seq<char>, hash: Seq<char>) -> bool {
    phc_well_formed(hash) && pbkdf2_accepts(password, hash)
}

/// Hashes a password with `Pbkdf2.hash_password` and a salt from
/// `SaltString::generate` on the system's generator, and writes the hash as a
/// PHC string. The salt is random, so the text is not fixed. Two things are
/// claimed. The hasher does not refuse: with its default parameters and a
/// salt that it generated itself, none of its error paths is reached, for a
/// password of any length. And, as the crate's documentation shows of every
/// hash it hands out, `PasswordHash::new` reads the string back and
/// `Pbkdf2.verify_password` accepts the same password for it.
#[verifier::external_body]
pub(crate) fn hash_password(password: &str) -> (r: Option<String>)
    ensures
        r is Some,
        hash_of(password@, r.unwrap()@),
{
    match Pbkdf2.hash_password(password.as_bytes(), &SaltString::generate(&mut OsRng)) {
        Ok(hash) => Some(hash.to_string()),
        Err(_) => None,
    }
}

/// Tries `PasswordHash::new` on a stored text and says whether it parsed.
#[verifier::external_body]
pub(crate) fn is_well_formed_hash(hash: &str) -> (r: bool)
    ensures
        r == phc_well_formed(hash@),
{
    PasswordHash::new(hash).is_ok()
}

/// Checks a password with `Pbkdf2.verify_password` against a stored PHC
/// string, which `PasswordHash::new` reads first.
#[verifier::external_body]
pub(crate) fn verify_password(password: &str, hash: &str) -> (r: bool)
    requires
        phc_well_formed(hash@),
    ensures
        r == pbkdf2_accepts(password@, hash@),
{
    match PasswordHash::new(hash) {
        Ok(parsed) => Pbkdf2.verify_password(password.as_bytes(), &parsed).is_ok(),
        Err(_) => false,
    }
}

} // verus!
