use vstd::prelude::*;
use crate::text::str_starts_with;
use argon2::password_hash::{PasswordHasher, PasswordVerifier, PasswordHash};

verus! {

// Stored credentials arrive in two shapes: current PHC strings produced by
// Argon2id, and legacy bcrypt hashes carried over from an earlier stack.
// Verification dispatches on the hash prefix; a successful legacy check also
// re-hashes the password so the stored credential migrates forward.

/// Whether Argon2 accepts the password against the PHC hash string: a
/// function of the two arguments alone.
pub uninterp spec fn argon2_accepts(password: Seq<char>, hash: Seq<char>) -> bool;

/// Whether bcrypt accepts the password against the hash: a function of the
/// two arguments alone.
pub uninterp spec fn bcrypt_accepts(password: Seq<char>, hash: Seq<char>) -> bool;

/// Relies on `argon2::Argon2::verify_password` over a parsed
/// `PasswordHash`: deterministic in the password and hash; a hash that does
/// not parse is simply rejected.
#[verifier::external_body]
fn verify_argon2(password: &str, hash: &str) -> (r: bool)
    ensures
        r == argon2_accepts(password@, hash@),
{
    match PasswordHash::new(hash) {
        Ok(parsed) => argon2::Argon2::default()
            .verify_password(password.as_bytes(), &parsed)
            .is_ok(),
        Err(_) => false,
    }
}

/// Relies on `bcrypt::verify`: deterministic in the password and hash; a
/// malformed hash is rejected.
#[verifier::external_body]
fn verify_bcrypt(password: &str, hash: &str) -> (r: bool)
    ensures
        r == bcrypt_accepts(password@, hash@),
{
    bcrypt::verify(password, hash).unwrap_or(false)
}

/// Relies on `argon2::Argon2::hash_password`, which draws a fresh salt from
/// the system's secure generator, and on `verify_password` reading every
/// parameter back out of the produced PHC string: whatever salt was drawn,
/// the string names the Argon2 algorithm and accepts the password it was
/// made from. Hashing itself may fail (an RNG error).
#[verifier::external_body]
pub fn hash_password(password: &str) -> (r: Option<String>)
    ensures
        r is Some ==> r->0@.len() >= 7 && r->0@.take(7) == "$argon2"@
            && argon2_accepts(password@, r->0@),
{
    argon2::Argon2::default()
        .hash_password(password.as_bytes())
        .map(|h| h.to_string())
        .ok()
}

/// Which verifier a stored hash calls for, and its answer: Argon2 for PHC
/// strings, bcrypt for the legacy `$2...` shape, rejection for anything else.
pub open spec fn spec_verify_password(password: Seq<char>, hash: Seq<char>) -> bool {
    if hash.len() >= 7 && hash.take(7) == "$argon2"@ {
        argon2_accepts(password, hash)
    } else if hash.len() >= 2 && hash.take(2) == "$2"@ {
        bcrypt_accepts(password, hash)
    } else {
        false
    }
}

/// Verify a password against a stored hash of either generation.
pub fn verify_password(password: &str, hash: &str) -> (r: bool)
    ensures
        r == spec_verify_password(password@, hash@),
{
    proof {
        reveal_strlit("$argon2");
        reveal_strlit("$2");
    }
    if str_starts_with(hash, "$argon2") {
        return verify_argon2(password, hash);
    }
    if str_starts_with(hash, "$2") {
        return verify_bcrypt(password, hash);
    }
    false
}

/// Verify, and migrate a legacy credential: when a bcrypt hash accepts the
/// password, a fresh Argon2 hash is produced for storage. The second result
/// is `Some` only on that migration path (it stays `None` when re-hashing
/// fails); the verdict itself never depends on the re-hash.
pub fn verify_and_migrate(password: &str, hash: &str) -> (r: (bool, Option<String>))
    ensures
        r.0 == spec_verify_password(password@, hash@),
        r.1 is Some ==> hash@.len() >= 2 && hash@.take(2) == "$2"@
            && !(hash@.len() >= 7 && hash@.take(7) == "$argon2"@)
            && bcrypt_accepts(password@, hash@),
        r.1 is Some ==> argon2_accepts(password@, r.1->0@)
            && spec_verify_password(password@, r.1->0@),
{
    proof {
        reveal_strlit("$argon2");
        reveal_strlit("$2");
    }
    if str_starts_with(hash, "$argon2") {
        return (verify_argon2(password, hash), None);
    }
    if str_starts_with(hash, "$2") {
        if verify_bcrypt(password, hash) {
            return (true, hash_password(password));
        }
        return (false, None);
    }
    (false, None)
}

} // verus!
