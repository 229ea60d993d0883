//! The credential store's primitives: salted password hashing and
//! verification through PBKDF2, fresh session tokens, and the current
//! time. The key derivation itself is the outside library's work; this
//! module names its result and proves the encoding and comparison logic
//! around it.
use vstd::prelude::*;

use crate::hexstr::{
    hex_decode, hex_encode, hex_of, is_hex_lower, lemma_hex_of_injective, lemma_hex_of_is_hex_lower,
    lemma_hex_of_len,
};

verus! {

/// The 32-byte key that PBKDF2-HMAC-SHA256 with 100,000 iterations derives
/// from a salt and a password. A function of its arguments alone.
pub uninterp spec fn pbkdf2_of(salt: Seq<char>, password: Seq<char>) -> Seq<u8>;

/// Whether a stored (hexadecimal) hash is the one derived from this salt
/// and password.
pub open spec fn spec_password_ok(password: Seq<char>, salt: Seq<char>, stored: Seq<char>) -> bool {
    stored == hex_of(pbkdf2_of(salt, password))
}

/// Relies on `ring::pbkdf2::derive` with `PBKDF2_HMAC_SHA256`, 100,000
/// iterations and a 32-byte output buffer: the derived key is a function
/// of the salt and the password alone.
#[verifier::external_body]
pub(crate) fn derive_hash(salt: &str, password: &str) -> (r: Vec<u8>)
    ensures
        r@ == pbkdf2_of(salt@, password@),
        r@.len() == 32,
{
    let mut out = [0u8; 32];
    ring::pbkdf2::derive(
        ring::pbkdf2::PBKDF2_HMAC_SHA256,
        core::num::NonZeroU32::new(100_000).unwrap(),
        salt.as_bytes(),
        password.as_bytes(),
        &mut out,
    );
    out.to_vec()
}

/// Relies on `ring::pbkdf2::verify` with `PBKDF2_HMAC_SHA256` and 100,000
/// iterations: for a 32-byte expected key it succeeds exactly when the
/// expected key equals the key derived from this salt and password, and
/// the comparison is constant-time at the primitive level.
#[verifier::external_body]
pub(crate) fn verify_hash(salt: &str, password: &str, expected: &Vec<u8>) -> (r: bool)
    requires
        expected@.len() == 32,
    ensures
        r == (expected@ == pbkdf2_of(salt@, password@)),
{
    ring::pbkdf2::verify(
        ring::pbkdf2::PBKDF2_HMAC_SHA256,
        core::num::NonZeroU32::new(100_000).unwrap(),
        salt.as_bytes(),
        password.as_bytes(),
        expected.as_slice(),
    ).is_ok()
}

/// Relies on `chrono::Utc::now`: the current wall-clock time; when the
/// call returns, its timestamp is a non-negative number of seconds since
/// the Unix epoch.
#[verifier::external_body]
pub(crate) fn now_seconds() -> (r: i64)
    ensures
        r >= 0,
{
    chrono::Utc::now().timestamp()
}

/// Relies on `uuid::Uuid::new_v4` and its `Display` form: a fresh random
/// version-4 UUID printed as 36 hyphenated hexadecimal characters. Nothing
/// further can be promised of a random value.
#[verifier::external_body]
pub(crate) fn fresh_uuid() -> (r: String)
    ensures
        r@.len() == 36,
{
    uuid::Uuid::new_v4().to_string()
}

/// Derive the stored form of a password: the lowercase hexadecimal
/// encoding of the PBKDF2 key for this salt and password.
pub fn hash_password(password: &str, salt: &str) -> (r: String)
    ensures
        r@ == hex_of(pbkdf2_of(salt@, password@)),
        r@.len() == 64,
        is_hex_lower(r@),
{
    let key = derive_hash(salt, password);
    let r = hex_encode(&key);
    proof {
        lemma_hex_of_len(key@);
        lemma_hex_of_is_hex_lower(key@);
    }
    r
}

/// Check a password attempt against a stored hash: true exactly when the
/// stored hash is the one derived from this salt and this password.
pub fn verify_password(password: &str, salt: &str, stored: &str) -> (r: bool)
    requires
        is_hex_lower(stored@),
        stored@.len() == 64,
    ensures
        r == spec_password_ok(password@, salt@, stored@),
{
    let bytes = hex_decode(stored);
    proof {
        lemma_hex_of_len(bytes@);
    }
    let r = verify_hash(salt, password, &bytes);
    proof {
        if stored@ == hex_of(pbkdf2_of(salt@, password@)) {
            lemma_hex_of_injective(bytes@, pbkdf2_of(salt@, password@));
        }
    }
    r
}

} // verus!
