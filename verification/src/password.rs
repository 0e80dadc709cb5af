//! Credential hashing: salted, memory-hard password hashes and their
//! verification.
//!
//! The hash of a password under a salt is a fixed function of the two, named
//! `password_hash_of`; the verdict of checking a password against a stored
//! encoded hash is named `password_check_of`, where `None` stands for a
//! malformed stored hash (a corruption or configuration error, distinct from
//! a wrong password).

use vstd::prelude::*;

use crate::errors::{AuthenticationError, ProcessorError};

verus! {

/// The encoded hash that the memory-hard algorithm produces for this
/// password and salt under the fixed default cost parameters.
pub uninterp spec fn password_hash_of(password: Seq<char>, salt: Seq<u8>) -> Seq<char>;

/// The verdict of checking `password` against the stored `encoded` hash:
/// `None` when the stored hash is malformed, `Some(b)` the verdict.
pub uninterp spec fn password_check_of(encoded: Seq<char>, password: Seq<char>) -> Option<bool>;

#[verifier::external_type_specification]
#[verifier::external_body]
pub struct ExArgon2Error(argon2::Error);

/// Relies on argon2::hash_encoded with argon2::Config::default(): the encoded
/// result depends on the password and the salt alone, and the crate's
/// verify_encoded accepts the same password against it (the documented
/// hash/verify round trip). Under the default parameters and a 32-byte
/// salt, the crate's context checks refuse nothing but a password whose
/// UTF-8 encoding exceeds its 32-bit byte bound; a character encodes to at
/// most four bytes, so every password of at most 0x3FFF_FFFF characters
/// fits and hashes successfully.
#[verifier::external_body]
fn argon2_hash_encoded(password: &String, salt: &Vec<u8>) -> (r: Result<String, argon2::Error>)
    requires
        salt@.len() == 32,
    ensures
        (password@.len() <= 0x3FFF_FFFF ==> r is Ok),
        (r matches Ok(h) ==> h@ == password_hash_of(password@, salt@)),
        (r matches Ok(h) ==> password_check_of(h@, password@) == Some(true)),
{
    argon2::hash_encoded(password.as_str().as_bytes(), salt.as_slice(), &argon2::Config::default())
}

/// Relies on argon2::verify_encoded: the verdict depends on the stored
/// encoded hash and the password alone; it fails (rather than answering)
/// exactly when the stored hash cannot be parsed.
#[verifier::external_body]
fn argon2_verify_encoded(encoded: &String, password: &String) -> (r: Result<bool, argon2::Error>)
    ensures
        (r matches Ok(b) ==> password_check_of(encoded@, password@) == Some(b)),
        (r matches Err(_) ==> password_check_of(encoded@, password@) is None),
{
    argon2::verify_encoded(encoded.as_str(), password.as_str().as_bytes())
}

/// Relies on rand::random to draw a fresh salt from a cryptographically
/// secure source; nothing is promised of its value beyond its length.
#[verifier::external_body]
pub fn random_salt() -> (r: Vec<u8>)
    ensures
        r@.len() == 32,
{
    let salt: [u8; 32] = rand::random();
    salt.to_vec()
}

/// Hash a password under a 32-byte salt. On success the result is exactly
/// the encoded hash of this password and salt, and checking the same
/// password against it succeeds.
pub fn hash_password(password: &String, salt: &Vec<u8>) -> (r: Result<String, ProcessorError>)
    requires
        salt@.len() == 32,
    ensures
        (password@.len() <= 0x3FFF_FFFF ==> r is Ok),
        (r matches Ok(h) ==> h@ == password_hash_of(password@, salt@)),
        (r matches Ok(h) ==> password_check_of(h@, password@) == Some(true)),
        (r matches Err(e) ==> e == ProcessorError::AuthenticationError(
            AuthenticationError::TokenCreation,
        )),
{
    match argon2_hash_encoded(password, salt) {
        Ok(h) => Ok(h),
        Err(_) => Err(ProcessorError::AuthenticationError(AuthenticationError::TokenCreation)),
    }
}

/// Check a password against a stored encoded hash. A malformed stored hash
/// is an internal error, never reported as a wrong password.
pub fn verify_password(encoded: &String, password: &String) -> (r: Result<bool, ProcessorError>)
    ensures
        (r matches Ok(b) ==> password_check_of(encoded@, password@) == Some(b)),
        (r matches Err(e) ==> password_check_of(encoded@, password@) is None
            && e == ProcessorError::AuthenticationError(AuthenticationError::TokenCreation)),
{
    match argon2_verify_encoded(encoded, password) {
        Ok(b) => Ok(b),
        Err(_) => Err(ProcessorError::AuthenticationError(AuthenticationError::TokenCreation)),
    }
}

} // verus!
