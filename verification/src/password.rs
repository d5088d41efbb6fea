//! Password hashing and checking. The hashing itself is Argon2's; what this
//! module proves is how its outcomes are reported.

use crate::errors::{internal_error, ApiError, ErrorKind};
use argon2::{PasswordHasher, PasswordVerifier};
use vstd::prelude::*;

verus! {

/// `argon2::password_hash::Error`, carried from the call that failed to the
/// function that reads its text; nothing is known of what it holds.
#[verifier::external_type_specification]
#[verifier::external_body]
pub struct ExPasswordHashError(argon2::password_hash::Error);

/// The hash string that Argon2, with its default parameters, makes of a
/// password under a salt; `None` where it makes none, because the salt is no
/// salt or the hasher refuses the password.
pub uninterp spec fn argon2_phc(password: Seq<char>, salt: Seq<char>) -> Option<Seq<char>>;

/// What Argon2 says of a password held against a stored hash string: `None`
/// where the string is no hash string, else whether the password matches.
pub uninterp spec fn argon2_verdict(password: Seq<char>, stored: Seq<char>) -> Option<bool>;

/// The passwords that Argon2 takes: those of at most 0xFFFF_FFFF bytes, which
/// every password of this many characters is.
pub open spec fn is_hashable(password: Seq<char>) -> bool {
    password.len() <= 0x3fff_ffff
}

/// Calls `SaltString::generate` with the operating system's random source.
/// Which salt comes out differs from call to call. Assumed, as the sources
/// have it: the salt is the B64 form of 16 random bytes, which Argon2 takes
/// as a salt, so that under it every password that Argon2 takes gets a hash.
#[verifier::external_body]
fn random_salt() -> (salt: String)
    ensures
        forall|password: Seq<char>| is_hashable(password) ==> (#[trigger] argon2_phc(password, salt@)) is Some,
{
    argon2::password_hash::SaltString::generate(&mut argon2::password_hash::rand_core::OsRng)
        .as_str()
        .to_owned()
}

/// Calls `Argon2::default().hash_password` and renders the hash as a string.
/// Assumed: whether a hash comes out, and which, depends on the password and
/// the salt alone, and a check of the same password against it succeeds. A
/// salt that is not valid B64, or a password that Argon2 refuses, comes back
/// as the error.
#[verifier::external_body]
fn argon2_hash(password: &str, salt: &str) -> (res: Result<String, argon2::password_hash::Error>)
    ensures
        match res {
            Ok(hash) => argon2_phc(password@, salt@) == Some(hash@) && argon2_verdict(password@, hash@)
                == Some(true),
            Err(_) => argon2_phc(password@, salt@) is None,
        },
{
    let salt = argon2::password_hash::SaltString::from_b64(salt)?;
    Ok(argon2::Argon2::default().hash_password(password.as_bytes(), &salt)?.to_string())
}

/// Parses the stored string with `PasswordHash::new` and calls
/// `Argon2::default().verify_password`. Assumed: the outcome depends on the
/// two strings alone. A string that does not parse comes back as the error;
/// every failure of the verification itself counts as a mismatch.
#[verifier::external_body]
fn argon2_check(password: &str, stored: &str) -> (res: Result<bool, argon2::password_hash::Error>)
    ensures
        match res {
            Ok(accepted) => argon2_verdict(password@, stored@) == Some(accepted),
            Err(_) => argon2_verdict(password@, stored@) is None,
        },
{
    let parsed = argon2::PasswordHash::new(stored)?;
    Ok(argon2::Argon2::default().verify_password(password.as_bytes(), &parsed).is_ok())
}

/// The text of a hashing error, as its `Display` gives it.
#[verifier::external_body]
fn hash_error_text(error: &argon2::password_hash::Error) -> (text: String) {
    error.to_string()
}

/// What hashing a password under a salt comes to: the hash that Argon2
/// makes, which the password checks against, or an `InternalError` where it
/// makes none.
pub open spec fn is_hash_under(password: Seq<char>, salt: Seq<char>, res: Result<String, ApiError>) -> bool {
    match argon2_phc(password, salt) {
        Some(expected) => res matches Ok(hash) && hash@ == expected && argon2_verdict(password, expected)
            == Some(true),
        None => res matches Err(e) && e.kind == ErrorKind::InternalError,
    }
}

/// Hashes a password under a given salt. A failure of the hasher is an
/// `InternalError` that carries the hasher's message.
pub fn hash_password_with_salt(password: &str, salt: &str) -> (res: Result<String, ApiError>)
    ensures
        is_hash_under(password@, salt@, res),
{
    match argon2_hash(password, salt) {
        Ok(hash) => Ok(hash),
        Err(error) => Err(internal_error(hash_error_text(&error))),
    }
}

/// Hashes a password under a fresh random salt, so that equal passwords get
/// different hashes. Every password that Argon2 takes gets a hash, and the
/// outcome is that of hashing under some salt.
pub fn hash_password(password: &str) -> (res: Result<String, ApiError>)
    ensures
        is_hashable(password@) ==> res is Ok,
        exists|salt: Seq<char>| is_hash_under(password@, salt, res),
{
    let salt = random_salt();
    let res = hash_password_with_salt(password, salt.as_str());
    assert(is_hash_under(password@, salt@, res));
    res
}

/// Checks a password against a stored hash: `Ok` with the verdict where the
/// stored string is a hash string, an `InternalError` where it is not.
pub fn verify_password(password: &str, stored: &str) -> (res: Result<bool, ApiError>)
    ensures
        match argon2_verdict(password@, stored@) {
            Some(accepted) => res == Ok::<bool, ApiError>(accepted),
            None => res matches Err(e) && e.kind == ErrorKind::InternalError,
        },
{
    match argon2_check(password, stored) {
        Ok(accepted) => Ok(accepted),
        Err(error) => Err(internal_error(hash_error_text(&error))),
    }
}

} // verus!
