use crate::error::Error;
use crate::primitives::{memzero, scrypt_derive, scrypt_stream};
use crate::util::fixed_time_eq;
use vstd::prelude::*;

verus! {

/// Stretches `password` into a keystream of `length` bytes with the
/// memory-hard key-derivation function. Fails, without retrying at a lower
/// cost, when the host cannot run the function with the limits asked for;
/// limits beyond the machine word, and a length no buffer can have, are
/// such cases.
pub fn derive_keystream(
    password: &[u8],
    salt: &[u8; 32],
    opslimit: u64,
    memlimit: u64,
    length: usize,
) -> (r: Result<Vec<u8>, Error>)
    ensures
        match r {
            Ok(stream) => stream@ == scrypt_stream(
                password@,
                salt@,
                opslimit as nat,
                memlimit as nat,
                length as nat,
            ) && stream@.len() == length && opslimit <= usize::MAX && memlimit <= usize::MAX
                && length <= isize::MAX,
            Err(e) => e == Error::KdfResourceExhausted,
        },
{
    if opslimit > usize::MAX as u64 || memlimit > usize::MAX as u64 || length
        > isize::MAX as usize {
        return Err(Error::KdfResourceExhausted);
    }
    let mut stream: Vec<u8> = vec![0u8; length];
    let ok = scrypt_derive(&mut stream, password, salt, opslimit as usize, memlimit as usize);
    if ok {
        Ok(stream)
    } else {
        memzero(stream.as_mut_slice());
        Err(Error::KdfResourceExhausted)
    }
}

/// Judges a recomputed checksum against the stored one, in constant time,
/// and wipes the recomputed bytes. A checksum that could not be computed
/// passes its error on; one that differs from the stored bytes is a
/// mismatch.
pub fn checksum_verdict(computed: Result<Vec<u8>, Error>, stored: &[u8]) -> (r: Result<(), Error>)
    ensures
        r == match computed {
            Ok(h) => if h@ == stored@ {
                Ok::<(), Error>(())
            } else {
                Err::<(), Error>(Error::ChecksumMismatch)
            },
            Err(e) => Err::<(), Error>(e),
        },
{
    match computed {
        Ok(h) => {
            let mut h = h;
            let same = fixed_time_eq(h.as_slice(), stored);
            memzero(h.as_mut_slice());
            if same {
                Ok(())
            } else {
                Err(Error::ChecksumMismatch)
            }
        },
        Err(e) => Err(e),
    }
}

} // verus!
