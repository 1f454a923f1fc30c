use sodiumoxide::crypto::pwhash::scryptsalsa208sha256::{
    derive_key, MemLimit, OpsLimit, Salt, MEMLIMIT_SENSITIVE, OPSLIMIT_SENSITIVE,
};
use vstd::prelude::*;

verus! {

/// The unkeyed BLAKE2b digest of `data`, `out_len` bytes long.
pub uninterp spec fn blake2b(data: Seq<u8>, out_len: nat) -> Seq<u8>;

/// The scrypt keystream of `length` bytes that a password, a salt and the
/// two cost limits determine.
pub uninterp spec fn scrypt_stream(
    password: Seq<u8>,
    salt: Seq<u8>,
    opslimit: nat,
    memlimit: nat,
    length: nat,
) -> Seq<u8>;

/// The standard, padded base64 text of `bytes`.
pub uninterp spec fn base64_text(bytes: Seq<u8>) -> Seq<char>;

/// Calls `sodiumoxide::crypto::generichash::hash` without a key. Trusted:
/// the call gives a digest exactly when `out_len` is between 16 and 64.
/// `hash` itself refuses every other length; for a length within these
/// bounds it hands the request to libsodium's `crypto_generichash`, which
/// checks the same bounds and then returns 0. The digest has the requested
/// length and is the one named `blake2b`.
#[verifier::external_body]
pub(crate) fn generic_hash(data: &[u8], out_len: usize) -> (r: Option<Vec<u8>>)
    ensures
        r is Some <==> 16 <= out_len <= 64,
        r matches Some(d) ==> d@ == blake2b(data@, out_len as nat) && d@.len() == out_len,
{
    match sodiumoxide::crypto::generichash::hash(data, Some(out_len), None) {
        Ok(digest) => Some(digest.as_ref().to_vec()),
        Err(_) => None,
    }
}

/// Calls `sodiumoxide::crypto::pwhash::scryptsalsa208sha256::derive_key`,
/// which fills `key`. Trusted: the length of `key` stays, and when the call
/// reports success `key` holds the scrypt keystream of that length for the
/// given password, salt and limits. The call fails when the host cannot
/// provide the memory asked for; nothing is claimed about `key` then.
#[verifier::external_body]
pub(crate) fn scrypt_derive(
    key: &mut Vec<u8>,
    password: &[u8],
    salt: &[u8; 32],
    opslimit: usize,
    memlimit: usize,
) -> (ok: bool)
    ensures
        final(key)@.len() == old(key)@.len(),
        ok ==> final(key)@ == scrypt_stream(
            password@,
            salt@,
            opslimit as nat,
            memlimit as nat,
            old(key)@.len(),
        ),
{
    let limits = (OpsLimit(opslimit), MemLimit(memlimit));
    derive_key(key.as_mut_slice(), password, &Salt(*salt), limits.0, limits.1).is_ok()
}

/// Calls `sodiumoxide::randombytes::randombytes`. Trusted: the result has
/// `size` bytes. The bytes are random, so nothing else is said of them.
#[verifier::external_body]
pub(crate) fn random_bytes(size: usize) -> (r: Vec<u8>)
    requires
        size <= isize::MAX,
    ensures
        r@.len() == size,
{
    sodiumoxide::randombytes::randombytes(size)
}

/// Calls `sodiumoxide::crypto::sign::gen_keypair` and hands out the public
/// and the secret key as plain bytes. The pair is random: nothing is
/// claimed about it.
#[verifier::external_body]
pub(crate) fn sign_keypair() -> (r: ([u8; 32], [u8; 64])) {
    let (pk, sk) = sodiumoxide::crypto::sign::gen_keypair();
    (pk.0, sk.0)
}

/// Reads `sodiumoxide::crypto::pwhash::scryptsalsa208sha256::OPSLIMIT_SENSITIVE`.
/// Trusted: the operations limit for highly sensitive data is 33554432.
#[verifier::external_body]
pub(crate) fn sensitive_opslimit() -> (r: usize)
    ensures
        r == 33_554_432,
{
    OPSLIMIT_SENSITIVE.0
}

/// Reads `sodiumoxide::crypto::pwhash::scryptsalsa208sha256::MEMLIMIT_SENSITIVE`.
/// Trusted: the memory limit for highly sensitive data is 1073741824 bytes.
#[verifier::external_body]
pub(crate) fn sensitive_memlimit() -> (r: usize)
    ensures
        r == 1_073_741_824,
{
    MEMLIMIT_SENSITIVE.0
}

/// Calls `sodiumoxide::utils::memzero`. Trusted: every byte of `buf` is
/// zero afterwards and the length stays.
#[verifier::external_body]
pub(crate) fn memzero(buf: &mut [u8])
    ensures
        final(buf)@.len() == old(buf)@.len(),
        forall|i: int| 0 <= i < final(buf)@.len() ==> final(buf)@[i] == 0,
{
    sodiumoxide::utils::memzero(buf)
}

/// Calls `base64::encode`. Trusted: the result is the standard padded
/// base64 text of `bytes`, four characters for every started group of
/// three bytes. Inputs whose encoded size would not fit in `usize` make the
/// call panic and are excluded.
#[verifier::external_body]
pub(crate) fn base64_encode(bytes: &[u8]) -> (r: String)
    requires
        4 * (bytes@.len() / 3) + 4 <= usize::MAX,
    ensures
        r@ == base64_text(bytes@),
        r@.len() == 4 * ((bytes@.len() + 2) / 3),
{
    base64::encode(bytes)
}

} // verus!
