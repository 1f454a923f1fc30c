use crate::error::Error;
use crate::layout::{PublicKeyView, SecretKeyView, SignatureView};
use crate::primitives::{
    blake2b, generic_hash, memzero, random_bytes, sensitive_memlimit, sensitive_opslimit,
    sign_keypair,
};
use crate::types::{CHKALG, KDFALG, SIGALG};
use crate::util::{
    extend_bytes, le64_bytes, lemma_le64_store_load, load_u64_le, read_array, store_u64_le,
    stream_rest, xor_in_place,
};
use vstd::prelude::*;
use vstd::slice::{slice_subrange, slice_to_vec};

verus! {

/// Name and version of the tool.
pub const VERSION_STRING: &'static str = "rsign 0.1";

/// Suffix of a signature file written beside the signed file.
pub const SIG_SUFFIX: &'static str = ".rsign";

/// Environment variable that names another key directory.
pub const SIG_DEFAULT_CONFIG_DIR_ENV_VAR: &'static str = "MINISIGN_CONFIG_DIR";

/// Key number, secret key and checksum as byte vectors.
#[derive(Debug, Default)]
pub struct KeynumSK {
    pub keynum: Vec<u8>,
    pub sk: Vec<u8>,
    pub chk: Vec<u8>,
}

impl Clone for KeynumSK {
    fn clone(&self) -> (r: KeynumSK)
        ensures
            r.keynum@ == self.keynum@,
            r.sk@ == self.sk@,
            r.chk@ == self.chk@,
    {
        KeynumSK {
            keynum: slice_to_vec(self.keynum.as_slice()),
            sk: slice_to_vec(self.sk.as_slice()),
            chk: slice_to_vec(self.chk.as_slice()),
        }
    }
}

impl KeynumSK {
    /// Number of bytes the three fields hold together.
    pub fn len(&self) -> (n: usize)
        requires
            self.keynum@.len() + self.sk@.len() + self.chk@.len() <= usize::MAX,
        ensures
            n == self.keynum@.len() + self.sk@.len() + self.chk@.len(),
    {
        self.keynum.len() + self.sk.len() + self.chk.len()
    }
}

/// A secret key record held as byte vectors, with the two cost limits as
/// numbers.
pub struct SeckeyStruct {
    pub sig_alg: Vec<u8>,
    pub kdf_alg: Vec<u8>,
    pub chk_alg: Vec<u8>,
    pub kdf_salt: Vec<u8>,
    pub kdf_opslimit_le: u64,
    pub kdf_memlimit_le: u64,
    pub keynum_sk: KeynumSK,
}

impl Clone for SeckeyStruct {
    fn clone(&self) -> (r: SeckeyStruct)
        ensures
            r@ == self@,
    {
        SeckeyStruct {
            sig_alg: slice_to_vec(self.sig_alg.as_slice()),
            kdf_alg: slice_to_vec(self.kdf_alg.as_slice()),
            chk_alg: slice_to_vec(self.chk_alg.as_slice()),
            kdf_salt: slice_to_vec(self.kdf_salt.as_slice()),
            kdf_opslimit_le: self.kdf_opslimit_le,
            kdf_memlimit_le: self.kdf_memlimit_le,
            keynum_sk: self.keynum_sk.clone(),
        }
    }
}

impl View for SeckeyStruct {
    type V = SecretKeyView;

    open spec fn view(&self) -> SecretKeyView {
        SecretKeyView {
            sig_alg: self.sig_alg@,
            kdf_alg: self.kdf_alg@,
            chk_alg: self.chk_alg@,
            kdf_salt: self.kdf_salt@,
            kdf_opslimit_le: le64_bytes(self.kdf_opslimit_le as nat),
            kdf_memlimit_le: le64_bytes(self.kdf_memlimit_le as nat),
            keynum: self.keynum_sk.keynum@,
            sk: self.keynum_sk.sk@,
            chk: self.keynum_sk.chk@,
        }
    }
}

impl SeckeyStruct {
    /// The algorithm tag as a byte slice.
    pub fn as_ref(&self) -> (r: &[u8])
        ensures
            r@ == self.sig_alg@,
    {
        self.sig_alg.as_slice()
    }

    /// Size of the structure in memory, not of its encoding.
    pub fn len(self) -> (n: usize)
        ensures
            n as nat == vstd::layout::spec_size_of_val::<SeckeyStruct>(&self),
    {
        core::mem::size_of_val(&self)
    }

    /// Reads a secret key record from the front of `bytes_buf`.
    pub fn from(bytes_buf: &[u8]) -> (r: Result<SeckeyStruct, Error>)
        ensures
            match r {
                Ok(k) => SecretKeyView::decode(bytes_buf@) == Ok::<SecretKeyView, Error>(k@),
                Err(e) => SecretKeyView::decode(bytes_buf@) == Err::<SecretKeyView, Error>(e),
            },
    {
        if bytes_buf.len() < 158 {
            return Err(Error::TruncatedInput);
        }
        let sk = SeckeyStruct {
            sig_alg: slice_to_vec(slice_subrange(bytes_buf, 0, 2)),
            kdf_alg: slice_to_vec(slice_subrange(bytes_buf, 2, 4)),
            chk_alg: slice_to_vec(slice_subrange(bytes_buf, 4, 6)),
            kdf_salt: slice_to_vec(slice_subrange(bytes_buf, 6, 38)),
            kdf_opslimit_le: load_u64_le(slice_subrange(bytes_buf, 38, 46)),
            kdf_memlimit_le: load_u64_le(slice_subrange(bytes_buf, 46, 54)),
            keynum_sk: KeynumSK {
                keynum: slice_to_vec(slice_subrange(bytes_buf, 54, 62)),
                sk: slice_to_vec(slice_subrange(bytes_buf, 62, 126)),
                chk: slice_to_vec(slice_subrange(bytes_buf, 126, 158)),
            },
        };
        proof {
            let ops = bytes_buf@.subrange(38, 46);
            let mem = bytes_buf@.subrange(46, 54);
            assert(ops.subrange(0, 8) =~= ops);
            assert(mem.subrange(0, 8) =~= mem);
            lemma_le64_store_load(ops);
            lemma_le64_store_load(mem);
        }
        Ok(sk)
    }

    /// The bytes of the record, fields in order; the cost limits as eight
    /// little-endian bytes each.
    pub fn bytes(&self) -> (v: Vec<u8>)
        ensures
            v@ == self@.encode(),
            self@.wf() ==> v@.len() == 158,
    {
        let opslim_arr = store_u64_le(self.kdf_opslimit_le);
        let memlim_arr = store_u64_le(self.kdf_memlimit_le);
        let mut v: Vec<u8> = Vec::new();
        extend_bytes(&mut v, self.sig_alg.as_slice());
        extend_bytes(&mut v, self.kdf_alg.as_slice());
        extend_bytes(&mut v, self.chk_alg.as_slice());
        extend_bytes(&mut v, self.kdf_salt.as_slice());
        extend_bytes(&mut v, &opslim_arr);
        extend_bytes(&mut v, &memlim_arr);
        extend_bytes(&mut v, self.keynum_sk.keynum.as_slice());
        extend_bytes(&mut v, self.keynum_sk.sk.as_slice());
        extend_bytes(&mut v, self.keynum_sk.chk.as_slice());
        proof {
            assert(v@ =~= self@.encode());
        }
        v
    }

    /// Computes the checksum of the present fields, the 32-byte BLAKE2b
    /// digest of algorithm tag, key number and secret key, and stores it in
    /// the record.
    pub fn checksum(&mut self)
        ensures
            final(self)@ == old(self)@.with_chk(old(self)@.checksum()),
            final(self)@.chk.len() == 32,
    {
        let mut input: Vec<u8> = Vec::with_capacity(74);
        extend_bytes(&mut input, self.sig_alg.as_slice());
        extend_bytes(&mut input, self.keynum_sk.keynum.as_slice());
        extend_bytes(&mut input, self.keynum_sk.sk.as_slice());
        let digest = generic_hash(input.as_slice(), 32);
        memzero(input.as_mut_slice());
        match digest {
            Some(h) => {
                self.keynum_sk.chk = h;
            },
            None => {},
        }
    }

    /// XORs `stream` over key number, secret key and checksum, taken as one
    /// run of bytes, and wipes the stream. The same call encrypts and
    /// decrypts. A shorter stream changes only the bytes it reaches.
    pub fn xor_keynum(&mut self, stream: Vec<u8>)
        ensures
            final(self)@ == old(self)@.xor(stream@),
    {
        let mut stream = stream;
        let b8 = xor_in_place(self.keynum_sk.keynum.as_mut_slice(), stream.as_slice());
        let rest = slice_subrange(stream.as_slice(), b8, stream.len());
        let b64 = xor_in_place(self.keynum_sk.sk.as_mut_slice(), rest);
        let tail = slice_subrange(stream.as_slice(), b8 + b64, stream.len());
        let _b32 = xor_in_place(self.keynum_sk.chk.as_mut_slice(), tail);
        proof {
            let v = old(self)@;
            v.lemma_xor_by_fields(stream@);
            assert(rest@ =~= stream_rest(stream@, v.keynum.len()));
            assert(tail@ =~= stream_rest(rest@, v.sk.len()));
        }
        memzero(stream.as_mut_slice());
    }
}

/// Key number and public key: the body of a public key record.
#[derive(Debug)]
pub struct KeynumPK {
    pub keynum: [u8; 8],
    pub pk: [u8; 32],
}

impl Clone for KeynumPK {
    fn clone(&self) -> (r: KeynumPK)
        ensures
            r == *self,
    {
        KeynumPK { keynum: self.keynum, pk: self.pk }
    }
}

/// A public key record.
#[derive(Debug)]
pub struct PubkeyStruct {
    pub sig_alg: [u8; 2],
    pub keynum_pk: KeynumPK,
}

impl View for PubkeyStruct {
    type V = PublicKeyView;

    open spec fn view(&self) -> PublicKeyView {
        PublicKeyView {
            sig_alg: self.sig_alg@,
            keynum: self.keynum_pk.keynum@,
            pk: self.keynum_pk.pk@,
        }
    }
}

impl PubkeyStruct {
    /// Reads a public key record from the front of `buf`.
    pub fn from(buf: &[u8]) -> (r: Result<PubkeyStruct, Error>)
        ensures
            match r {
                Ok(k) => PublicKeyView::decode(buf@) == Ok::<PublicKeyView, Error>(k@),
                Err(e) => PublicKeyView::decode(buf@) == Err::<PublicKeyView, Error>(e),
            },
    {
        if buf.len() < 42 {
            return Err(Error::TruncatedInput);
        }
        let sig_alg: [u8; 2] = read_array(buf, 0);
        let keynum: [u8; 8] = read_array(buf, 2);
        let pk: [u8; 32] = read_array(buf, 10);
        Ok(PubkeyStruct { sig_alg, keynum_pk: KeynumPK { keynum, pk } })
    }

    /// The 42 bytes of the record: tag, key number, key.
    pub fn bytes(&self) -> (v: Vec<u8>)
        ensures
            v@ == self@.encode(),
            v@.len() == 42,
    {
        let mut v: Vec<u8> = Vec::new();
        extend_bytes(&mut v, &self.sig_alg);
        extend_bytes(&mut v, &self.keynum_pk.keynum);
        extend_bytes(&mut v, &self.keynum_pk.pk);
        v
    }
}

/// A signature record held as byte vectors.
#[derive(Debug)]
pub struct SigStruct {
    pub sig_alg: Vec<u8>,
    pub keynum: Vec<u8>,
    pub sig: Vec<u8>,
}

impl View for SigStruct {
    type V = SignatureView;

    open spec fn view(&self) -> SignatureView {
        SignatureView { sig_alg: self.sig_alg@, keynum: self.keynum@, sig: self.sig@ }
    }
}

impl SigStruct {
    /// The bytes of the record: tag, key number, signature.
    pub fn bytes(&self) -> (v: Vec<u8>)
        ensures
            v@ == self@.encode(),
            self@.wf() ==> v@.len() == 74,
    {
        let mut v: Vec<u8> = Vec::new();
        extend_bytes(&mut v, self.sig_alg.as_slice());
        extend_bytes(&mut v, self.keynum.as_slice());
        extend_bytes(&mut v, self.sig.as_slice());
        v
    }

    /// Reads a signature record from the front of `bytes_buf`.
    pub fn from(bytes_buf: &[u8]) -> (r: Result<SigStruct, Error>)
        ensures
            match r {
                Ok(s) => SignatureView::decode(bytes_buf@) == Ok::<SignatureView, Error>(s@),
                Err(e) => SignatureView::decode(bytes_buf@) == Err::<SignatureView, Error>(e),
            },
    {
        if bytes_buf.len() < 74 {
            return Err(Error::TruncatedInput);
        }
        Ok(
            SigStruct {
                sig_alg: slice_to_vec(slice_subrange(bytes_buf, 0, 2)),
                keynum: slice_to_vec(slice_subrange(bytes_buf, 2, 10)),
                sig: slice_to_vec(slice_subrange(bytes_buf, 10, 74)),
            },
        )
    }
}

impl Default for SigStruct {
    /// The signature whose bytes are all zero.
    fn default() -> (s: SigStruct)
        ensures
            s@ == SignatureView::zeroed(),
    {
        let s = SigStruct { sig_alg: vec![0u8;2], keynum: vec![0u8;8], sig: vec![0u8;64] };
        proof {
            assert(s.sig_alg@ =~= SignatureView::zeroed().sig_alg);
            assert(s.keynum@ =~= SignatureView::zeroed().keynum);
            assert(s.sig@ =~= SignatureView::zeroed().sig);
        }
        s
    }
}

/// Assembles the two records of a key pair from its parts: the
/// plaintext secret key record with its checksum set, and the public key
/// record with the same algorithm tag and key number.
pub fn assemble_keystruct(
    keynum: [u8; 8],
    pk: [u8; 32],
    sk: [u8; 64],
    salt: [u8; 32],
    opslimit: u64,
    memlimit: u64,
) -> (r: (PubkeyStruct, SeckeyStruct))
    ensures
        r.0@ == (PublicKeyView { sig_alg: SIGALG@, keynum: keynum@, pk: pk@ }),
        r.1@ == (SecretKeyView {
            sig_alg: SIGALG@,
            kdf_alg: KDFALG@,
            chk_alg: CHKALG@,
            kdf_salt: salt@,
            kdf_opslimit_le: le64_bytes(opslimit as nat),
            kdf_memlimit_le: le64_bytes(memlimit as nat),
            keynum: keynum@,
            sk: sk@,
            chk: blake2b(SIGALG@ + keynum@ + sk@, 32),
        }),
        r.1@.chk.len() == 32,
{
    let p_struct = PubkeyStruct { sig_alg: SIGALG, keynum_pk: KeynumPK { keynum, pk } };
    let mut s_struct = SeckeyStruct {
        sig_alg: slice_to_vec(&SIGALG),
        kdf_alg: slice_to_vec(&KDFALG),
        chk_alg: slice_to_vec(&CHKALG),
        kdf_salt: slice_to_vec(&salt),
        kdf_opslimit_le: opslimit,
        kdf_memlimit_le: memlimit,
        keynum_sk: KeynumSK {
            keynum: slice_to_vec(&keynum),
            sk: slice_to_vec(&sk),
            chk: Vec::with_capacity(32),
        },
    };
    s_struct.checksum();
    (p_struct, s_struct)
}

/// Generates a fresh key pair: a random key number, an Ed25519 key pair, a
/// random salt and the cost limits for highly sensitive data. The secret key
/// record comes back in plaintext with its checksum set; encrypting it is
/// the caller's next step.
pub fn gen_keystruct() -> (r: (PubkeyStruct, SeckeyStruct))
    ensures
        r.0@.wf(),
        r.1@.wf(),
        r.0@.sig_alg == SIGALG@,
        r.0@.keynum == r.1@.keynum,
        r.1@.sig_alg == SIGALG@,
        r.1@.kdf_alg == KDFALG@,
        r.1@.chk_alg == CHKALG@,
        r.1.kdf_opslimit_le == 33_554_432,
        r.1.kdf_memlimit_le == 1_073_741_824,
        r.1@.chk == r.1@.checksum(),
{
    let (pk, mut sk) = sign_keypair();
    let keynum_vec = random_bytes(8);
    let keynum: [u8; 8] = read_array(keynum_vec.as_slice(), 0);
    let salt_vec = random_bytes(32);
    let salt: [u8; 32] = read_array(salt_vec.as_slice(), 0);
    let opslimit = sensitive_opslimit() as u64;
    let memlimit = sensitive_memlimit() as u64;
    let r = assemble_keystruct(keynum, pk, sk, salt, opslimit, memlimit);
    memzero(&mut sk);
    r
}

} // verus!
