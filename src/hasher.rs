//! Salted, one-way password hashing with bcrypt.
//!
//! A stored representation is bcrypt's self-describing text: version, cost,
//! salt and digest. Checking a password reads the cost and the salt from it,
//! so records made at an older cost still check.

use vstd::prelude::*;

verus! {

#[verifier::external_type_specification]
#[verifier::external_body]
pub struct ExBcryptError(bcrypt::BcryptError);

/// The cost factor of new hashes.
pub const HASH_COST: u32 = 12;

/// Hashing could not produce a representation (no randomness for the salt),
/// or a stored representation could not be read.
#[derive(Clone, Copy, Debug, PartialEq, Eq, Structural)]
pub struct HashingError;

/// What bcrypt's check says of `password` against the stored text `stored`:
/// whether it matches, or `None` where `stored` is not a bcrypt hash.
pub uninterp spec fn bcrypt_verdict(password: Seq<char>, stored: Seq<char>) -> Option<bool>;

/// A character of bcrypt's base64 alphabet: `.`, `/`, `A`-`Z`, `a`-`z`, `0`-`9`.
pub open spec fn is_bcrypt_base64(c: char) -> bool {
    c == '.' || c == '/' || ('A' as u32 <= c as u32 && c as u32 <= 'Z' as u32) || ('a' as u32
        <= c as u32 && c as u32 <= 'z' as u32) || ('0' as u32 <= c as u32 && c as u32 <= '9' as u32)
}

/// The start of every new representation: version `2b`, cost 12.
pub open spec fn fresh_hash_prefix() -> Seq<char> {
    seq!['$', '2', 'b', '$', '1', '2', '$']
}

/// The shape of a new representation: the prefix that names version and
/// cost, then 53 base64 characters, the 22 of the salt and the 31 of the digest.
pub open spec fn is_fresh_hash_text(h: Seq<char>) -> bool {
    &&& h.len() == 60
    &&& h.subrange(0, 7) == fresh_hash_prefix()
    &&& forall|i: int| 7 <= i < 60 ==> is_bcrypt_base64(#[trigger] h[i])
}

/// Relies on `bcrypt::hash`: with a fresh random salt, it gives the text that
/// `bcrypt::verify` reads back, with the same salt and cost, so that the same
/// password checks against it. The text is `$2b$`, the cost in two digits,
/// `$`, then salt and digest in bcrypt's base64 (60 characters in all). It
/// fails only where no salt can be drawn.
#[verifier::external_body]
fn bcrypt_hash(password: &str) -> (r: Result<String, bcrypt::BcryptError>)
    ensures
        r matches Ok(h) ==> bcrypt_verdict(password@, h@) == Some(true) && is_fresh_hash_text(h@),
{
    bcrypt::hash(password, HASH_COST)
}

/// Relies on `bcrypt::verify`: it parses `stored`, rehashes `password` with the
/// parsed cost and salt, and compares the digests in constant time.
#[verifier::external_body]
fn bcrypt_verify(password: &str, stored: &str) -> (r: Result<bool, bcrypt::BcryptError>)
    ensures
        r matches Ok(b) ==> bcrypt_verdict(password@, stored@) == Some(b),
        r is Err ==> bcrypt_verdict(password@, stored@) is None,
{
    bcrypt::verify(password, stored)
}

/// What checking `password` against the stored representation `stored` gives.
pub open spec fn password_check(password: Seq<char>, stored: Seq<char>) -> Result<
    bool,
    HashingError,
> {
    match bcrypt_verdict(password, stored) {
        Some(b) => Ok(b),
        None => Err(HashingError),
    }
}

/// Derives a stored representation of `password`, with a fresh salt.
/// Whatever representation comes back, it names its version, cost and salt,
/// and `password` checks against it.
pub fn hash_password(password: &str) -> (r: Result<String, HashingError>)
    ensures
        r matches Ok(h) ==> password_check(password@, h@) == Ok::<bool, HashingError>(true)
            && is_fresh_hash_text(h@),
{
    match bcrypt_hash(password) {
        Ok(h) => Ok(h),
        Err(_) => Err(HashingError),
    }
}

/// Checks `password` against the stored representation `stored`. A mismatch
/// is `Ok(false)`; only a representation that cannot be read is an error.
pub fn check_password(password: &str, stored: &str) -> (r: Result<bool, HashingError>)
    ensures
        r == password_check(password@, stored@),
{
    match bcrypt_verify(password, stored) {
        Ok(b) => Ok(b),
        Err(_) => Err(HashingError),
    }
}

} // verus!
