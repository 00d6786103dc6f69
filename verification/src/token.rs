//! Bearer-token primitives: random token generation and salted, slow
//! hashing, through the outside crates that implement them.
//!
//! Only the three wrappers here touch the outside code; everything above
//! them reasons in terms of `argon_verifies`, the name given to the result
//! of hash verification.

use vstd::prelude::*;

use argon2::{Argon2, PasswordHash, PasswordHasher, PasswordVerifier};
use argon2::password_hash::SaltString;
use rand_core::OsRng;
use uuid::Uuid;

verus! {

/// Whether Argon2 password verification accepts `token` against the PHC hash
/// string `hash`: the hash string embeds algorithm, parameters and salt, so
/// the outcome is a function of the two arguments alone. A `hash` that does
/// not parse as a PHC string is accepted by no token.
pub uninterp spec fn argon_verifies(hash: Seq<char>, token: Seq<char>) -> bool;

/// Relies on argon2's `PasswordHash::new` and `Argon2::verify_password`:
/// parsing the PHC string and recomputing the hash of `token` with the
/// embedded salt and parameters is deterministic in `(hash, token)`.
#[verifier::external_body]
pub(crate) fn verify_token_hash(hash: &str, token: &str) -> (ok: bool)
    ensures
        ok == argon_verifies(hash@, token@),
{
    match PasswordHash::new(hash) {
        Ok(parsed) => Argon2::default().verify_password(token.as_bytes(), &parsed).is_ok(),
        Err(_) => false,
    }
}

/// Relies on argon2's `Argon2::hash_password` with a fresh random salt: the
/// returned PHC string embeds the algorithm, parameters and salt used, so
/// `Argon2::verify_password` recomputes the same hash and accepts exactly
/// the hashed token. The salt is random, so nothing else is promised of the
/// returned string.
#[verifier::external_body]
pub(crate) fn hash_token(token: &str) -> (r: Option<String>)
    ensures
        r is Some ==> argon_verifies(r->Some_0@, token@),
{
    let salt = SaltString::generate(&mut OsRng);
    match Argon2::default().hash_password(token.as_bytes(), &salt) {
        Ok(hash) => Some(hash.to_string()),
        Err(_) => None,
    }
}

/// Relies on uuid's `Uuid::new_v4` and its `Display` impl: a fresh random
/// identifier printed in the hyphenated form, which is 36 characters. The
/// value is random, so nothing else is promised of it.
#[verifier::external_body]
pub(crate) fn generate_token() -> (t: String)
    ensures
        t@.len() == 36,
{
    Uuid::new_v4().to_string()
}

} // verus!
