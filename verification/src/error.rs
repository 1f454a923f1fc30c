use vstd::prelude::*;

verus! {

/// Everything that can go wrong while loading or unlocking key material.
#[derive(Clone, Copy, Debug, PartialEq, Eq, Structural)]
pub enum Error {
    /// Fewer bytes were supplied than the fixed-width record needs.
    TruncatedInput,
    /// The stored checksum differs from the one recomputed over the record:
    /// the password is wrong or the key is corrupted.
    ChecksumMismatch,
    /// The key-derivation function could not run with the requested cost.
    KdfResourceExhausted,
    /// An underlying cryptographic primitive reported a failure.
    PrimitiveFailure,
}

} // verus!
