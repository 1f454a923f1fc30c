use crate::cipher::{checksum_verdict, derive_keystream};
use crate::error::Error;
use crate::layout::{PublicKeyView, SecretKeyView, SignatureView};
use crate::primitives::{base64_encode, base64_text, generic_hash, memzero};
use crate::util::{
    extend_bytes, fixed_time_eq, hex_text, load_u64_le, lower_hex, read_array, stream_rest,
    xor_in_place,
};
use vstd::slice::slice_subrange;
use vstd::prelude::*;

verus! {

/// Number of bytes in a key number.
pub const KEYNUMBYTES: usize = 8;

/// Number of bytes in an algorithm tag.
pub const TWOBYTES: usize = 2;

/// Length of the prefix of a trusted comment line.
pub const TR_COMMENT_PREFIX_LEN: usize = 17;

/// Length of the base64 text of a public key record.
pub const PK_B64_ENCODED_LEN: usize = 56;

/// Longest password accepted.
pub const PASSWORDMAXBYTES: usize = 1024;

/// Longest untrusted comment accepted.
pub const COMMENTBYTES: usize = 1024;

/// Longest trusted comment accepted.
pub const TRUSTEDCOMMENTMAXBYTES: usize = 8192;

/// Algorithm tag of plain Ed25519 signatures: "Ed".
pub const SIGALG: [u8; 2] = [0x45, 0x64];

/// Algorithm tag of signatures over a pre-hashed message: "ED".
pub const SIGALG_HASHED: [u8; 2] = [0x45, 0x44];

/// Tag of the key-derivation function: "Sc".
pub const KDFALG: [u8; 2] = [0x53, 0x63];

/// Tag of the checksum hash: "B2".
pub const CHKALG: [u8; 2] = [0x42, 0x32];

/// Start of an untrusted comment line.
pub const COMMENT_PREFIX: &'static str = "untrusted comment: ";

/// Untrusted comment of a signature when none is given.
pub const DEFAULT_COMMENT: &'static str = "signature from rsign secret key";

/// Untrusted comment of a secret key file.
pub const SECRETKEY_DEFAULT_COMMENT: &'static str = "rsign encrypted secret key";

/// Start of a trusted comment line.
pub const TRUSTED_COMMENT_PREFIX: &'static str = "trusted comment: ";

/// Directory, under the home directory, where keys are kept.
pub const SIG_DEFAULT_CONFIG_DIR: &'static str = ".rsign";

/// Environment variable that names another key directory.
pub const SIG_DEFAULT_CONFIG_DIR_ENV_VAR: &'static str = "RSIGN_CONFIG_DIR";

/// File name of the public key.
pub const SIG_DEFAULT_PKFILE: &'static str = "rsign.pub";

/// File name of the secret key.
pub const SIG_DEFAULT_SKFILE: &'static str = "rsign.key";

/// Suffix of a signature file.
pub const SIG_SUFFIX: &'static str = ".minisig";

/// Number of bytes in a checksum.
pub const CHK_BYTES: usize = 32;

/// Number of bytes in the hash of a pre-hashed message.
pub const PREHASH_BYTES: usize = 64;

/// Number of bytes in a key-derivation salt.
pub const KDF_SALTBYTES: usize = 32;

/// Default operations limit of the key-derivation function.
pub const OPSLIMIT: u64 = 1_048_576;

/// Default memory limit of the key-derivation function, in bytes.
pub const MEMLIMIT: usize = 33_554_432;

/// Number of bytes in an Ed25519 public key.
pub const PUBLICKEYBYTES: usize = 32;

/// Number of bytes in an Ed25519 secret key.
pub const SECRETKEYBYTES: usize = 64;

/// Number of bytes in an Ed25519 signature.
pub const SIGNATUREBYTES: usize = 64;

/// Key number, secret key and checksum: the part of a secret key record
/// that is encrypted at rest.
pub struct KeynumSK {
    pub keynum: [u8; KEYNUMBYTES],
    pub sk: [u8; SECRETKEYBYTES],
    pub chk: [u8; CHK_BYTES],
}

impl Clone for KeynumSK {
    fn clone(&self) -> (r: KeynumSK)
        ensures
            r == *self,
    {
        KeynumSK { keynum: self.keynum, sk: self.sk, chk: self.chk }
    }
}

impl KeynumSK {
    /// Size of the three fields together.
    pub fn len(&self) -> (n: usize)
        ensures
            n == 104,
    {
        KEYNUMBYTES + SECRETKEYBYTES + CHK_BYTES
    }

    /// The secret key bytes in lower-case hexadecimal, for debugging.
    pub fn fmt(&self) -> (s: String)
        ensures
            s@ == hex_text(self.sk@),
    {
        lower_hex(&self.sk)
    }
}

impl PartialEq for KeynumSK {
    /// Two of them are equal when their secret key bytes are; the
    /// comparison takes the same time wherever they differ.
    fn eq(&self, other: &KeynumSK) -> (r: bool) {
        fixed_time_eq(&self.sk, &other.sk)
    }
}

impl vstd::std_specs::cmp::PartialEqSpecImpl for KeynumSK {
    open spec fn obeys_eq_spec() -> bool {
        true
    }

    open spec fn eq_spec(&self, other: &KeynumSK) -> bool {
        self.sk@ == other.sk@
    }
}

impl Eq for KeynumSK {

}

/// A secret key record: 158 bytes when encoded. On disk the key number,
/// the secret key and the checksum are XORed with a password-derived
/// keystream; the other fields are always in the clear.
pub struct SecretKey {
    pub sig_alg: [u8; TWOBYTES],
    pub kdf_alg: [u8; TWOBYTES],
    pub chk_alg: [u8; TWOBYTES],
    pub kdf_salt: [u8; KDF_SALTBYTES],
    pub kdf_opslimit_le: [u8; KEYNUMBYTES],
    pub kdf_memlimit_le: [u8; KEYNUMBYTES],
    pub keynum_sk: KeynumSK,
}

impl View for SecretKey {
    type V = SecretKeyView;

    open spec fn view(&self) -> SecretKeyView {
        SecretKeyView {
            sig_alg: self.sig_alg@,
            kdf_alg: self.kdf_alg@,
            chk_alg: self.chk_alg@,
            kdf_salt: self.kdf_salt@,
            kdf_opslimit_le: self.kdf_opslimit_le@,
            kdf_memlimit_le: self.kdf_memlimit_le@,
            keynum: self.keynum_sk.keynum@,
            sk: self.keynum_sk.sk@,
            chk: self.keynum_sk.chk@,
        }
    }
}

impl PartialEq for SecretKey {
    /// Two secret keys are equal when their key bytes are; the comparison
    /// takes the same time wherever they differ.
    fn eq(&self, other: &SecretKey) -> (r: bool) {
        fixed_time_eq(&self.keynum_sk.sk, &other.keynum_sk.sk)
    }
}

impl vstd::std_specs::cmp::PartialEqSpecImpl for SecretKey {
    open spec fn obeys_eq_spec() -> bool {
        true
    }

    open spec fn eq_spec(&self, other: &SecretKey) -> bool {
        self.keynum_sk.sk@ == other.keynum_sk.sk@
    }
}

impl Eq for SecretKey {

}

impl SecretKey {
    /// Two records with the same bytes in every field are the same record.
    pub proof fn lemma_view_determines_record(a: SecretKey, b: SecretKey)
        requires
            a@ == b@,
        ensures
            a == b,
    {
        assert(a.sig_alg =~= b.sig_alg);
        assert(a.kdf_alg =~= b.kdf_alg);
        assert(a.chk_alg =~= b.chk_alg);
        assert(a.kdf_salt =~= b.kdf_salt);
        assert(a.kdf_opslimit_le =~= b.kdf_opslimit_le);
        assert(a.kdf_memlimit_le =~= b.kdf_memlimit_le);
        assert(a.keynum_sk.keynum =~= b.keynum_sk.keynum);
        assert(a.keynum_sk.sk =~= b.keynum_sk.sk);
        assert(a.keynum_sk.chk =~= b.keynum_sk.chk);
    }

    /// Every secret key record has fields of the fixed widths, so decoding
    /// its encoding gives the record back, field by field.
    pub proof fn lemma_round_trip(self)
        ensures
            self@.wf(),
            SecretKeyView::decode(self@.encode()) == Ok::<SecretKeyView, Error>(self@),
    {
        self@.lemma_decode_encode();
    }

    /// The secret key bytes in lower-case hexadecimal, for debugging.
    pub fn fmt(&self) -> (s: String)
        ensures
            s@ == hex_text(self@.sk),
    {
        lower_hex(&self.keynum_sk.sk)
    }

    /// Reads a secret key from the front of `bytes_buf`. The three
    /// encrypted fields are taken as they are.
    pub fn from_bytes(bytes_buf: &[u8]) -> (r: Result<SecretKey, Error>)
        ensures
            match r {
                Ok(k) => SecretKeyView::decode(bytes_buf@) == Ok::<SecretKeyView, Error>(k@),
                Err(e) => SecretKeyView::decode(bytes_buf@) == Err::<SecretKeyView, Error>(e),
            },
    {
        if bytes_buf.len() < 158 {
            return Err(Error::TruncatedInput);
        }
        let sig_alg: [u8; TWOBYTES] = read_array(bytes_buf, 0);
        let kdf_alg: [u8; TWOBYTES] = read_array(bytes_buf, 2);
        let chk_alg: [u8; TWOBYTES] = read_array(bytes_buf, 4);
        let kdf_salt: [u8; KDF_SALTBYTES] = read_array(bytes_buf, 6);
        let ops_limit: [u8; KEYNUMBYTES] = read_array(bytes_buf, 38);
        let mem_limit: [u8; KEYNUMBYTES] = read_array(bytes_buf, 46);
        let keynum: [u8; KEYNUMBYTES] = read_array(bytes_buf, 54);
        let sk: [u8; SECRETKEYBYTES] = read_array(bytes_buf, 62);
        let chk: [u8; CHK_BYTES] = read_array(bytes_buf, 126);
        Ok(
            SecretKey {
                sig_alg,
                kdf_alg,
                chk_alg,
                kdf_salt,
                kdf_opslimit_le: ops_limit,
                kdf_memlimit_le: mem_limit,
                keynum_sk: KeynumSK { keynum, sk, chk },
            },
        )
    }

    /// The 158 bytes of the record, fields in order.
    pub fn to_bytes(&self) -> (v: Vec<u8>)
        ensures
            v@ == self@.encode(),
            v@.len() == 158,
    {
        let mut v: Vec<u8> = Vec::new();
        extend_bytes(&mut v, &self.sig_alg);
        extend_bytes(&mut v, &self.kdf_alg);
        extend_bytes(&mut v, &self.chk_alg);
        extend_bytes(&mut v, &self.kdf_salt);
        extend_bytes(&mut v, &self.kdf_opslimit_le);
        extend_bytes(&mut v, &self.kdf_memlimit_le);
        extend_bytes(&mut v, &self.keynum_sk.keynum);
        extend_bytes(&mut v, &self.keynum_sk.sk);
        extend_bytes(&mut v, &self.keynum_sk.chk);
        proof {
            assert(v@ =~= self@.encode());
        }
        v
    }

    /// Computes the checksum of the record's present fields: the 32-byte
    /// BLAKE2b digest of algorithm tag, key number and secret key. It is
    /// computed for every record, whatever its bytes are.
    pub fn read_checksum(&self) -> (r: Result<Vec<u8>, Error>)
        ensures
            r is Ok,
            r->Ok_0@ == self@.checksum(),
            r->Ok_0@.len() == 32,
    {
        let mut input: Vec<u8> = Vec::with_capacity(74);
        extend_bytes(&mut input, &self.sig_alg);
        extend_bytes(&mut input, &self.keynum_sk.keynum);
        extend_bytes(&mut input, &self.keynum_sk.sk);
        let digest = generic_hash(input.as_slice(), CHK_BYTES);
        memzero(input.as_mut_slice());
        match digest {
            Some(h) => Ok(h),
            None => Err(Error::PrimitiveFailure),
        }
    }

    /// Computes the checksum of the present fields and stores it in the
    /// record.
    pub fn write_checksum(&mut self) -> (r: Result<(), Error>)
        ensures
            r is Ok,
            final(self)@ == old(self)@.with_chk(old(self)@.checksum()),
    {
        match self.read_checksum() {
            Ok(h) => {
                self.keynum_sk.chk = read_array(h.as_slice(), 0);
                proof {
                    assert(self.keynum_sk.chk@ =~= h@);
                }
                Ok(())
            },
            Err(e) => Err(e),
        }
    }

    /// Recomputes the checksum over the record's present fields and
    /// compares it with the stored one in constant time: `true` exactly when
    /// the stored checksum is the digest of algorithm tag, key number and
    /// secret key. `false` means a wrong password or a corrupted key; the
    /// two are not told apart.
    pub fn verify_checksum(&self) -> (ok: bool)
        ensures
            ok == (self@.chk == self@.checksum()),
    {
        let computed = self.read_checksum();
        checksum_verdict(computed, &self.keynum_sk.chk).is_ok()
    }

    /// XORs `stream` over key number, secret key and checksum, taken as one
    /// run of 104 bytes. The same call encrypts and decrypts. A shorter
    /// stream changes only the bytes it reaches.
    pub fn xor_keynum(&mut self, stream: &[u8])
        ensures
            final(self)@ == old(self)@.xor(stream@),
    {
        let b8 = xor_in_place(&mut self.keynum_sk.keynum, stream);
        let rest = slice_subrange(stream, b8, stream.len());
        let b64 = xor_in_place(&mut self.keynum_sk.sk, rest);
        let tail = slice_subrange(stream, b8 + b64, stream.len());
        let _b32 = xor_in_place(&mut self.keynum_sk.chk, tail);
        proof {
            old(self)@.lemma_xor_by_fields(stream@);
            assert(rest@ =~= stream_rest(stream@, 8));
            assert(tail@ =~= stream_rest(rest@, 64));
        }
    }

    /// Applies a derived keystream to the record and wipes the stream. A
    /// derivation that failed passes its error on and leaves the record
    /// untouched.
    pub fn apply_keystream(&mut self, derived: Result<Vec<u8>, Error>) -> (r: Result<(), Error>)
        ensures
            match derived {
                Ok(stream) => r is Ok && final(self)@ == old(self)@.xor(stream@),
                Err(e) => r == Err::<(), Error>(e) && *final(self) == *old(self),
            },
    {
        match derived {
            Ok(stream) => {
                let mut stream = stream;
                self.xor_keynum(stream.as_slice());
                memzero(stream.as_mut_slice());
                Ok(())
            },
            Err(e) => Err(e),
        }
    }

    /// Encrypts the plaintext record for storage: derives the keystream
    /// from `password` and the record's salt and cost limits, and XORs it
    /// over key number, secret key and checksum.
    pub fn encrypt_with_password(&mut self, password: &[u8]) -> (r: Result<(), Error>)
        ensures
            match r {
                Ok(_) => {
                    &&& old(self)@.keystream(password@).len() == 104
                    &&& final(self)@ == old(self)@.xor(old(self)@.keystream(password@))
                },
                Err(e) => e == Error::KdfResourceExhausted && *final(self) == *old(self),
            },
    {
        let opslimit = load_u64_le(&self.kdf_opslimit_le);
        let memlimit = load_u64_le(&self.kdf_memlimit_le);
        proof {
            assert(self.kdf_opslimit_le@.subrange(0, 8) =~= self.kdf_opslimit_le@);
            assert(self.kdf_memlimit_le@.subrange(0, 8) =~= self.kdf_memlimit_le@);
        }
        let derived = derive_keystream(password, &self.kdf_salt, opslimit, memlimit, 104);
        self.apply_keystream(derived)
    }

    /// Decrypts a stored record with `password` and checks the result: the
    /// keystream is applied, then the checksum is recomputed over the
    /// decrypted fields and compared with the decrypted checksum. Once the
    /// keystream is derived the call ends in `Ok` exactly when the two
    /// agree; a wrong password and a corrupted key both end in
    /// `ChecksumMismatch`, and in no other error.
    pub fn decrypt_with_password(&mut self, password: &[u8]) -> (r: Result<(), Error>)
        ensures
            match r {
                Ok(_) => {
                    &&& old(self)@.keystream(password@).len() == 104
                    &&& final(self)@ == old(self)@.xor(old(self)@.keystream(password@))
                    &&& final(self)@.chk == final(self)@.checksum()
                },
                Err(Error::ChecksumMismatch) => {
                    &&& old(self)@.keystream(password@).len() == 104
                    &&& final(self)@ == old(self)@.xor(old(self)@.keystream(password@))
                    &&& final(self)@.chk != final(self)@.checksum()
                },
                Err(Error::KdfResourceExhausted) => *final(self) == *old(self),
                Err(Error::PrimitiveFailure) => false,
                Err(Error::TruncatedInput) => false,
            },
    {
        match self.encrypt_with_password(password) {
            Ok(_) => {
                let computed = self.read_checksum();
                checksum_verdict(computed, &self.keynum_sk.chk)
            },
            Err(e) => Err(e),
        }
    }

    /// Tells whether `password` unlocks the stored record, without
    /// changing it: a copy is decrypted, checked and wiped.
    pub fn verify_password(&self, password: &[u8]) -> (r: Result<(), Error>)
        ensures
            ({
                let plain = self@.xor(self@.keystream(password@));
                match r {
                    Ok(_) => self@.keystream(password@).len() == 104 && plain.chk
                        == plain.checksum(),
                    Err(Error::ChecksumMismatch) => self@.keystream(password@).len() == 104
                        && plain.chk != plain.checksum(),
                    Err(Error::KdfResourceExhausted) => true,
                    Err(Error::PrimitiveFailure) => false,
                    Err(Error::TruncatedInput) => false,
                }
            }),
    {
        let mut copy = SecretKey {
            sig_alg: self.sig_alg,
            kdf_alg: self.kdf_alg,
            chk_alg: self.chk_alg,
            kdf_salt: self.kdf_salt,
            kdf_opslimit_le: self.kdf_opslimit_le,
            kdf_memlimit_le: self.kdf_memlimit_le,
            keynum_sk: self.keynum_sk.clone(),
        };
        let r = copy.decrypt_with_password(password);
        copy.wipe();
        r
    }

    /// Overwrites key number, secret key and checksum with zeros.
    pub fn wipe(&mut self)
        ensures
            final(self)@ == old(self)@.wiped(),
    {
        memzero(&mut self.keynum_sk.keynum);
        memzero(&mut self.keynum_sk.sk);
        memzero(&mut self.keynum_sk.chk);
        proof {
            assert(self@.keynum =~= old(self)@.wiped().keynum);
            assert(self@.sk =~= old(self)@.wiped().sk);
            assert(self@.chk =~= old(self)@.wiped().chk);
        }
    }

    /// The encoded record as base64 text.
    pub fn to_string(&self) -> (s: String)
        ensures
            s@ == base64_text(self@.encode()),
            s@.len() == 212,
    {
        let bytes = self.to_bytes();
        base64_encode(bytes.as_slice())
    }
}

/// Key number and public key: the body of a public key record.
#[derive(Debug)]
pub struct KeynumPK {
    pub keynum: [u8; KEYNUMBYTES],
    pub pk: [u8; PUBLICKEYBYTES],
}

impl Clone for KeynumPK {
    fn clone(&self) -> (r: KeynumPK)
        ensures
            r == *self,
    {
        KeynumPK { keynum: self.keynum, pk: self.pk }
    }
}

/// A public key record: 42 bytes when encoded.
#[derive(Debug)]
pub struct PublicKey {
    pub sig_alg: [u8; TWOBYTES],
    pub keynum_pk: KeynumPK,
}

impl View for PublicKey {
    type V = PublicKeyView;

    open spec fn view(&self) -> PublicKeyView {
        PublicKeyView {
            sig_alg: self.sig_alg@,
            keynum: self.keynum_pk.keynum@,
            pk: self.keynum_pk.pk@,
        }
    }
}

impl PartialEq for PublicKey {
    /// Two public keys are equal when their key bytes are; the comparison
    /// takes the same time wherever they differ.
    fn eq(&self, other: &PublicKey) -> (r: bool) {
        fixed_time_eq(&self.keynum_pk.pk, &other.keynum_pk.pk)
    }
}

impl vstd::std_specs::cmp::PartialEqSpecImpl for PublicKey {
    open spec fn obeys_eq_spec() -> bool {
        true
    }

    open spec fn eq_spec(&self, other: &PublicKey) -> bool {
        self.keynum_pk.pk@ == other.keynum_pk.pk@
    }
}

impl Eq for PublicKey {

}

impl PublicKey {
    /// Two records with the same bytes in every field are the same record.
    pub proof fn lemma_view_determines_record(a: PublicKey, b: PublicKey)
        requires
            a@ == b@,
        ensures
            a == b,
    {
        assert(a.sig_alg =~= b.sig_alg);
        assert(a.keynum_pk.keynum =~= b.keynum_pk.keynum);
        assert(a.keynum_pk.pk =~= b.keynum_pk.pk);
    }

    /// Every public key record has fields of the fixed widths, so decoding
    /// its encoding gives the record back, field by field.
    pub proof fn lemma_round_trip(self)
        ensures
            self@.wf(),
            PublicKeyView::decode(self@.encode()) == Ok::<PublicKeyView, Error>(self@),
    {
        self@.lemma_decode_encode();
    }

    /// Size of an encoded public key.
    pub fn len() -> (n: usize)
        ensures
            n == 42,
    {
        TWOBYTES + KEYNUMBYTES + PUBLICKEYBYTES
    }

    /// Reads a public key from the front of `buf`.
    pub fn from_bytes(buf: &[u8]) -> (r: Result<PublicKey, Error>)
        ensures
            match r {
                Ok(k) => PublicKeyView::decode(buf@) == Ok::<PublicKeyView, Error>(k@),
                Err(e) => PublicKeyView::decode(buf@) == Err::<PublicKeyView, Error>(e),
            },
    {
        if buf.len() < 42 {
            return Err(Error::TruncatedInput);
        }
        let sig_alg: [u8; TWOBYTES] = read_array(buf, 0);
        let keynum: [u8; KEYNUMBYTES] = read_array(buf, 2);
        let pk: [u8; PUBLICKEYBYTES] = read_array(buf, 10);
        Ok(PublicKey { sig_alg, keynum_pk: KeynumPK { keynum, pk } })
    }

    /// The 42 bytes of the record: tag, key number, key.
    pub fn to_bytes(&self) -> (v: Vec<u8>)
        ensures
            v@ == self@.encode(),
            v@.len() == 42,
    {
        let mut v: Vec<u8> = Vec::new();
        extend_bytes(&mut v, &self.sig_alg);
        extend_bytes(&mut v, &self.keynum_pk.keynum);
        extend_bytes(&mut v, &self.keynum_pk.pk);
        v
    }

    /// The encoded record as base64 text.
    pub fn to_string(&self) -> (s: String)
        ensures
            s@ == base64_text(self@.encode()),
            s@.len() == PK_B64_ENCODED_LEN,
    {
        let bytes = self.to_bytes();
        base64_encode(bytes.as_slice())
    }
}

/// A detached signature record: 74 bytes when encoded.
pub struct Signature {
    pub sig_alg: [u8; TWOBYTES],
    pub keynum: [u8; KEYNUMBYTES],
    pub sig: [u8; SIGNATUREBYTES],
}

impl Clone for Signature {
    fn clone(&self) -> (r: Signature)
        ensures
            r == *self,
    {
        Signature { sig_alg: self.sig_alg, keynum: self.keynum, sig: self.sig }
    }
}

impl View for Signature {
    type V = SignatureView;

    open spec fn view(&self) -> SignatureView {
        SignatureView { sig_alg: self.sig_alg@, keynum: self.keynum@, sig: self.sig@ }
    }
}

impl Signature {
    /// Two records with the same bytes in every field are the same record.
    pub proof fn lemma_view_determines_record(a: Signature, b: Signature)
        requires
            a@ == b@,
        ensures
            a == b,
    {
        assert(a.sig_alg =~= b.sig_alg);
        assert(a.keynum =~= b.keynum);
        assert(a.sig =~= b.sig);
    }

    /// Every signature record has fields of the fixed widths, so decoding
    /// its encoding gives the record back, field by field.
    pub proof fn lemma_round_trip(self)
        ensures
            self@.wf(),
            SignatureView::decode(self@.encode()) == Ok::<SignatureView, Error>(self@),
    {
        self@.lemma_decode_encode();
    }

    /// Size of an encoded signature.
    pub fn len() -> (n: usize)
        ensures
            n == 74,
    {
        TWOBYTES + KEYNUMBYTES + SIGNATUREBYTES
    }

    /// The 74 bytes of the record: tag, key number, signature.
    pub fn to_bytes(&self) -> (v: Vec<u8>)
        ensures
            v@ == self@.encode(),
            v@.len() == 74,
    {
        let mut v: Vec<u8> = Vec::new();
        extend_bytes(&mut v, &self.sig_alg);
        extend_bytes(&mut v, &self.keynum);
        extend_bytes(&mut v, &self.sig);
        v
    }

    /// Reads a signature from the front of `bytes_buf`.
    pub fn from_bytes(bytes_buf: &[u8]) -> (r: Result<Signature, Error>)
        ensures
            match r {
                Ok(s) => SignatureView::decode(bytes_buf@) == Ok::<SignatureView, Error>(s@),
                Err(e) => SignatureView::decode(bytes_buf@) == Err::<SignatureView, Error>(e),
            },
    {
        if bytes_buf.len() < 74 {
            return Err(Error::TruncatedInput);
        }
        let sig_alg: [u8; 2] = read_array(bytes_buf, 0);
        let keynum: [u8; KEYNUMBYTES] = read_array(bytes_buf, 2);
        let sig: [u8; SIGNATUREBYTES] = read_array(bytes_buf, 10);
        Ok(Signature { sig_alg, keynum, sig })
    }

    /// The encoded record as base64 text.
    pub fn to_string(&self) -> (s: String)
        ensures
            s@ == base64_text(self@.encode()),
            s@.len() == 100,
    {
        let bytes = self.to_bytes();
        base64_encode(bytes.as_slice())
    }
}

impl Default for Signature {
    /// The signature whose bytes are all zero.
    fn default() -> (s: Signature)
        ensures
            s@ == SignatureView::zeroed(),
    {
        let s = Signature {
            sig_alg: [0u8; TWOBYTES],
            keynum: [0u8; KEYNUMBYTES],
            sig: [0u8; SIGNATUREBYTES],
        };
        proof {
            assert(s.sig_alg@ =~= SignatureView::zeroed().sig_alg);
            assert(s.keynum@ =~= SignatureView::zeroed().keynum);
            assert(s.sig@ =~= SignatureView::zeroed().sig);
        }
        s
    }
}

} // verus!
