use vstd::prelude::*;

use crate::errors::Error;
use crate::text::constant_time_str_eq;

verus! {

/// The PHC string that the memory-hard hasher produces for `secret` hashed
/// with `salt` (argon2 with its default parameters): a function of the two
/// arguments alone, the same in every process and on every machine.
pub uninterp spec fn phc_of(secret: Seq<char>, salt: Seq<char>) -> Seq<char>;

/// What parsing a stored PHC string yields, projected to its salt field:
/// `None` when the string does not parse, `Some(None)` when it parses but
/// carries no salt, `Some(Some(s))` when it parses and embeds the salt `s`.
pub uninterp spec fn phc_salt(stored: Seq<char>) -> Option<Option<Seq<char>>>;

/// The byte count that B64-decoding a salt string yields, `None` when the
/// string does not decode.
pub uninterp spec fn b64_decoded_len(salt: Seq<char>) -> Option<int>;

/// A salt string in the exact shape this core generates: 22 characters that
/// B64-decode to 16 bytes.  The hashing primitive accepts every such salt.
pub open spec fn usable_salt(s: Seq<char>) -> bool {
    s.len() == 22 && b64_decoded_len(s) == Some(16int)
}

/// A candidate re-hashed with the salt embedded in a stored record
/// reproduces the record exactly.
pub open spec fn secret_matches(candidate: Seq<char>, stored: Seq<char>) -> bool {
    match phc_salt(stored) {
        Some(Some(salt)) => stored == phc_of(candidate, salt),
        _ => false,
    }
}

/// Relies on `argon2::Argon2::hash_password` (default parameters) and on the
/// PHC string format: on success the rendered hash is a function of secret
/// and salt alone, it begins with the `$` field separator, and parsing it
/// back recovers the embedded salt.  The call succeeds whenever the salt
/// B64-decodes to 8 to 64 bytes (ours decode to 16) and the secret is below
/// argon2's four-gibibyte bound; four bytes per character keeps the stated
/// character bound inside it.
#[verifier::external_body]
fn argon2_hash(secret: &str, salt: &str) -> (r: Option<String>)
    ensures
        r matches Some(h) ==> h@ == phc_of(secret@, salt@),
        r matches Some(h) ==> h@.len() > 0 && h@[0] == '$',
        r is Some ==> phc_salt(phc_of(secret@, salt@)) == Some(Some(salt@)),
        usable_salt(salt@) && secret@.len() <= 0x3fff_ffff ==> r is Some,
{
    let hasher = argon2::Argon2::default();
    match argon2::password_hash::Salt::from_b64(salt) {
        Err(_) => None,
        Ok(s) => match argon2::PasswordHasher::hash_password(&hasher, secret.as_bytes(), s) {
            Ok(h) => Some(h.to_string()),
            Err(_) => None,
        },
    }
}

/// Relies on `password_hash::SaltString::generate` over the operating
/// system's secure generator: every outcome is the 22-character B64
/// encoding of 16 fresh random bytes.
#[verifier::external_body]
fn generate_salt_inner() -> (r: String)
    ensures
        r@.len() == 22,
        b64_decoded_len(r@) == Some(16int),
{
    argon2::password_hash::SaltString::generate(&mut argon2::password_hash::rand_core::OsRng)
        .as_str()
        .to_owned()
}

/// Relies on `password_hash::PasswordHash::parse` with the B64 encoding:
/// the outcome is a function of the stored string alone; `phc_salt` names
/// its salt field.
#[verifier::external_body]
fn parse_stored_salt(stored: &str) -> (r: Option<Option<String>>)
    ensures
        (match r {
            None => phc_salt(stored@) is None,
            Some(None) => phc_salt(stored@) == Some(Option::<Seq<char>>::None),
            Some(Some(s)) => phc_salt(stored@) == Some(Some(s@)),
        }),
{
    match argon2::password_hash::PasswordHash::parse(stored, argon2::password_hash::Encoding::B64)
    {
        Err(_) => None,
        Ok(h) => match h.salt {
            None => Some(None),
            Some(s) => Some(Some(s.as_str().to_owned())),
        },
    }
}

/// A fresh random salt, ready for [`hash_secret`].
pub fn generate_salt() -> (r: String)
    ensures
        usable_salt(r@),
{
    generate_salt_inner()
}

/// Hash a secret with an explicit salt.  Never panics; fails only when the
/// underlying primitive rejects its parameters, which it does for no salt
/// this core generates.
pub fn hash_secret(secret: &str, salt: &str) -> (r: Result<String, Error>)
    ensures
        r matches Ok(h) ==> h@ == phc_of(secret@, salt@) && phc_salt(h@) == Some(Some(salt@)),
        r matches Ok(h) ==> h@.len() > 0 && h@[0] == '$',
        usable_salt(salt@) && secret@.len() <= 0x3fff_ffff ==> r is Ok,
        r is Err ==> r == Err::<String, Error>(Error::PwHashing),
{
    match argon2_hash(secret, salt) {
        Some(h) => Ok(h),
        None => Err(Error::PwHashing),
    }
}

/// Check a candidate secret against a stored hash record: re-derive the
/// hash with the salt embedded in the record and compare the records.  A
/// record without an embedded salt is a corruption condition, surfaced as
/// its own error rather than as a mismatch.
pub fn verify_secret(candidate: &str, stored: &str) -> (r: Result<bool, Error>)
    ensures
        r matches Ok(b) ==> b == secret_matches(candidate@, stored@),
        phc_salt(stored@) is None ==> r == Err::<bool, Error>(Error::PwHashing),
        phc_salt(stored@) == Some(Option::<Seq<char>>::None) ==> r == Err::<bool, Error>(
            Error::MissingSalt,
        ),
        r is Err ==> r == Err::<bool, Error>(Error::PwHashing) || r == Err::<bool, Error>(
            Error::MissingSalt,
        ),
        phc_salt(stored@) matches Some(Some(_)) ==> r is Ok || r == Err::<bool, Error>(
            Error::PwHashing,
        ),
        (phc_salt(stored@) matches Some(Some(salt)) && usable_salt(salt) && candidate@.len()
            <= 0x3fff_ffff) ==> r is Ok,
{
    match parse_stored_salt(stored) {
        None => Err(Error::PwHashing),
        Some(None) => Err(Error::MissingSalt),
        Some(Some(salt)) => {
            let rehashed = hash_secret(candidate, salt.as_str())?;
            Ok(constant_time_str_eq(rehashed.as_str(), stored))
        },
    }
}

/// Law: a record produced by hashing a secret with some salt verifies
/// against that same secret — hash then verify with the correct secret
/// returns true.
pub proof fn lemma_hash_then_verify(secret: Seq<char>, salt: Seq<char>, stored: Seq<char>)
    requires
        stored == phc_of(secret, salt),
        phc_salt(stored) == Some(Some(salt)),
    ensures
        secret_matches(secret, stored),
{
}

} // verus!
