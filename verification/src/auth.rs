//! Password hashing and checking with Argon2, in the PHC string format.

use vstd::prelude::*;
use argon2::password_hash::{PasswordHash, PasswordVerifier, SaltString};
use argon2::password_hash::rand_core::{OsRng, RngCore};
use crate::ordering::utf8_of;
use argon2::{Argon2, PasswordHasher};

verus! {

#[verifier::external_type_specification]
#[verifier::external_body]
pub struct ExPasswordHashError(argon2::password_hash::Error);

/// Whether `hash` parses as a PHC string (`PasswordHash::new` succeeds on it).
pub uninterp spec fn phc_string_parses(hash: Seq<char>) -> bool;

/// Whether Argon2 with default settings, rerun with the parameters and salt that
/// the PHC string `hash` records, reproduces the hash that `hash` records for
/// `password`.
pub uninterp spec fn argon2_accepts(hash: Seq<char>, password: Seq<char>) -> bool;

/// `password` is the one that the stored `hash` was made from.
pub open spec fn password_matches(hash: Seq<char>, password: Seq<char>) -> bool {
    phc_string_parses(hash) && argon2_accepts(hash, password)
}

/// Why a password could not be hashed.
#[derive(Clone, Copy, Debug, PartialEq, Eq, Structural)]
pub enum HashError {
    Argon2Failure,
}

/// The longest password Argon2 takes, in bytes.
pub const MAX_PASSWORD_BYTES: u64 = 0xFFFF_FFFF;

/// The start of every PHC string made with Argon2id, the default variant.
pub open spec fn argon2id_prefix() -> Seq<char> {
    "$argon2id$"@
}

/// Wraps `OsRng.fill_bytes` on sixteen bytes: a fresh random salt from the
/// operating system, of the length `SaltString::generate` uses. Nothing is stated
/// of the bytes: they are random.
#[verifier::external_body]
fn fresh_salt() -> [u8; 16] {
    let mut bytes = [0u8; 16];
    OsRng.fill_bytes(&mut bytes);
    bytes
}

/// Wraps `Argon2::default().hash_password` on the bytes of `password` with `salt`
/// (B64-encoded by `SaltString::encode_b64`), formatted as a PHC string. States that
/// hashing succeeds exactly when the password has at most `MAX_PASSWORD_BYTES`
/// bytes (the only check left that sixteen salt bytes and the default parameters
/// can fail), that the string starts with `$argon2id$`, that it parses as a PHC
/// string, and that Argon2 accepts `password` against it (the verifier reruns the
/// hash with the parameters and salt the string records). The rest of the string
/// depends on the salt and is left unsaid.
#[verifier::external_body]
fn argon2_hash(password: &str, salt: &[u8; 16]) -> (r: Result<String, argon2::password_hash::Error>)
    ensures
        r is Ok <==> utf8_of(password@).len() <= MAX_PASSWORD_BYTES,
        r matches Ok(h) ==> phc_string_parses(h@) && argon2_accepts(h@, password@)
            && argon2id_prefix().is_prefix_of(h@),
{
    let salt = match SaltString::encode_b64(salt) {
        Ok(salt) => salt,
        Err(e) => return Err(e),
    };
    match Argon2::default().hash_password(password.as_bytes(), &salt) {
        Ok(h) => Ok(h.to_string()),
        Err(e) => Err(e),
    }
}

/// Wraps `PasswordHash::new(hash).is_ok()`: whether `hash` parses as a PHC string;
/// the result is named, as a function of `hash` alone.
#[verifier::external_body]
fn phc_parses(hash: &str) -> (r: bool)
    ensures
        r == phc_string_parses(hash@),
{
    PasswordHash::new(hash).is_ok()
}

/// Wraps `Argon2::default().verify_password` on the bytes of `password` and the PHC
/// string `hash` (parsed with `PasswordHash::new`, which succeeds on it); the result
/// is named, as a function of `hash` and `password` alone.
#[verifier::external_body]
fn argon2_verify(hash: &str, password: &str) -> (r: bool)
    requires
        phc_string_parses(hash@),
    ensures
        r == argon2_accepts(hash@, password@),
{
    match PasswordHash::new(hash) {
        Ok(parsed) => Argon2::default().verify_password(password.as_bytes(), &parsed).is_ok(),
        Err(_) => false,
    }
}

/// Hashes `password` with Argon2id and a fresh random salt, as a PHC string. It
/// succeeds exactly when the password has at most `MAX_PASSWORD_BYTES` bytes, and
/// the hash is accepted by `verify_password` with the same password.
pub fn hash_password(password: &str) -> (r: Result<String, HashError>)
    ensures
        r is Ok <==> utf8_of(password@).len() <= MAX_PASSWORD_BYTES,
        r matches Ok(h) ==> password_matches(h@, password@) && argon2id_prefix().is_prefix_of(h@),
{
    let salt = fresh_salt();
    match argon2_hash(password, &salt) {
        Ok(h) => Ok(h),
        Err(_) => Err(HashError::Argon2Failure),
    }
}

/// Whether `password` matches the stored PHC string `hash`; a string that does not
/// parse matches no password.
pub fn verify_password(hash: &str, password: &str) -> (ok: bool)
    ensures
        ok == password_matches(hash@, password@),
{
    if phc_parses(hash) {
        argon2_verify(hash, password)
    } else {
        false
    }
}

} // verus!
