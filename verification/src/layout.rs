use crate::error::Error;
use crate::primitives::{blake2b, scrypt_stream};
use crate::util::{
    le64_value, lemma_xor_stream_concat, lemma_xor_stream_differs, lemma_xor_stream_involution,
    stream_rest, xor_stream,
};
use vstd::prelude::*;

verus! {

/// A public key record as plain byte strings.
pub struct PublicKeyView {
    pub sig_alg: Seq<u8>,
    pub keynum: Seq<u8>,
    pub pk: Seq<u8>,
}

/// A secret key record as plain byte strings. The two cost limits are kept
/// as their eight little-endian bytes.
pub struct SecretKeyView {
    pub sig_alg: Seq<u8>,
    pub kdf_alg: Seq<u8>,
    pub chk_alg: Seq<u8>,
    pub kdf_salt: Seq<u8>,
    pub kdf_opslimit_le: Seq<u8>,
    pub kdf_memlimit_le: Seq<u8>,
    pub keynum: Seq<u8>,
    pub sk: Seq<u8>,
    pub chk: Seq<u8>,
}

/// A signature record as plain byte strings.
pub struct SignatureView {
    pub sig_alg: Seq<u8>,
    pub keynum: Seq<u8>,
    pub sig: Seq<u8>,
}

impl PublicKeyView {
    /// Every field has its fixed width.
    pub open spec fn wf(self) -> bool {
        &&& self.sig_alg.len() == 2
        &&& self.keynum.len() == 8
        &&& self.pk.len() == 32
    }

    /// The fields in order, with nothing between them.
    pub open spec fn encode(self) -> Seq<u8> {
        self.sig_alg + self.keynum + self.pk
    }

    /// Reads the leading 42 bytes field by field; fewer bytes are an error.
    pub open spec fn decode(bytes: Seq<u8>) -> Result<PublicKeyView, Error> {
        if bytes.len() < 42 {
            Err(Error::TruncatedInput)
        } else {
            Ok(
                PublicKeyView {
                    sig_alg: bytes.subrange(0, 2),
                    keynum: bytes.subrange(2, 10),
                    pk: bytes.subrange(10, 42),
                },
            )
        }
    }

    /// A well-formed record always encodes to 42 bytes.
    pub proof fn lemma_encode_len(self)
        requires
            self.wf(),
        ensures
            self.encode().len() == 42,
    {
    }

    /// Decoding what was encoded gives the record back, field by field.
    pub proof fn lemma_decode_encode(self)
        requires
            self.wf(),
        ensures
            Self::decode(self.encode()) == Ok::<PublicKeyView, Error>(self),
    {
        let b = self.encode();
        assert(b.subrange(0, 2) =~= self.sig_alg);
        assert(b.subrange(2, 10) =~= self.keynum);
        assert(b.subrange(10, 42) =~= self.pk);
    }

    /// Encoding what was decoded gives the leading 42 bytes back.
    pub proof fn lemma_encode_decode(bytes: Seq<u8>)
        requires
            bytes.len() >= 42,
        ensures
            Self::decode(bytes) is Ok,
            Self::decode(bytes)->Ok_0.wf(),
            Self::decode(bytes)->Ok_0.encode() == bytes.subrange(0, 42),
    {
        assert(Self::decode(bytes)->Ok_0.encode() =~= bytes.subrange(0, 42));
    }
}

impl SignatureView {
    /// Every field has its fixed width.
    pub open spec fn wf(self) -> bool {
        &&& self.sig_alg.len() == 2
        &&& self.keynum.len() == 8
        &&& self.sig.len() == 64
    }

    /// The fields in order, with nothing between them.
    pub open spec fn encode(self) -> Seq<u8> {
        self.sig_alg + self.keynum + self.sig
    }

    /// Reads the leading 74 bytes field by field; fewer bytes are an error.
    pub open spec fn decode(bytes: Seq<u8>) -> Result<SignatureView, Error> {
        if bytes.len() < 74 {
            Err(Error::TruncatedInput)
        } else {
            Ok(
                SignatureView {
                    sig_alg: bytes.subrange(0, 2),
                    keynum: bytes.subrange(2, 10),
                    sig: bytes.subrange(10, 74),
                },
            )
        }
    }

    /// The record whose bytes are all zero.
    pub open spec fn zeroed() -> SignatureView {
        SignatureView {
            sig_alg: Seq::new(2, |i: int| 0u8),
            keynum: Seq::new(8, |i: int| 0u8),
            sig: Seq::new(64, |i: int| 0u8),
        }
    }

    /// A well-formed record always encodes to 74 bytes.
    pub proof fn lemma_encode_len(self)
        requires
            self.wf(),
        ensures
            self.encode().len() == 74,
    {
    }

    /// Decoding what was encoded gives the record back, field by field.
    pub proof fn lemma_decode_encode(self)
        requires
            self.wf(),
        ensures
            Self::decode(self.encode()) == Ok::<SignatureView, Error>(self),
    {
        let b = self.encode();
        assert(b.subrange(0, 2) =~= self.sig_alg);
        assert(b.subrange(2, 10) =~= self.keynum);
        assert(b.subrange(10, 74) =~= self.sig);
    }

    /// Encoding what was decoded gives the leading 74 bytes back.
    pub proof fn lemma_encode_decode(bytes: Seq<u8>)
        requires
            bytes.len() >= 74,
        ensures
            Self::decode(bytes) is Ok,
            Self::decode(bytes)->Ok_0.wf(),
            Self::decode(bytes)->Ok_0.encode() == bytes.subrange(0, 74),
    {
        assert(Self::decode(bytes)->Ok_0.encode() =~= bytes.subrange(0, 74));
    }
}

impl SecretKeyView {
    /// Every field has its fixed width.
    pub open spec fn wf(self) -> bool {
        &&& self.sig_alg.len() == 2
        &&& self.kdf_alg.len() == 2
        &&& self.chk_alg.len() == 2
        &&& self.kdf_salt.len() == 32
        &&& self.kdf_opslimit_le.len() == 8
        &&& self.kdf_memlimit_le.len() == 8
        &&& self.keynum.len() == 8
        &&& self.sk.len() == 64
        &&& self.chk.len() == 32
    }

    /// The six fields that are always stored in the clear.
    pub open spec fn header(self) -> Seq<u8> {
        self.sig_alg + self.kdf_alg + self.chk_alg + self.kdf_salt + self.kdf_opslimit_le
            + self.kdf_memlimit_le
    }

    /// The three fields that are encrypted at rest, in order.
    pub open spec fn payload(self) -> Seq<u8> {
        self.keynum + self.sk + self.chk
    }

    /// The fields in order, with nothing between them.
    pub open spec fn encode(self) -> Seq<u8> {
        self.header() + self.payload()
    }

    /// Reads the leading 158 bytes field by field; fewer bytes are an error.
    pub open spec fn decode(bytes: Seq<u8>) -> Result<SecretKeyView, Error> {
        if bytes.len() < 158 {
            Err(Error::TruncatedInput)
        } else {
            Ok(
                SecretKeyView {
                    sig_alg: bytes.subrange(0, 2),
                    kdf_alg: bytes.subrange(2, 4),
                    chk_alg: bytes.subrange(4, 6),
                    kdf_salt: bytes.subrange(6, 38),
                    kdf_opslimit_le: bytes.subrange(38, 46),
                    kdf_memlimit_le: bytes.subrange(46, 54),
                    keynum: bytes.subrange(54, 62),
                    sk: bytes.subrange(62, 126),
                    chk: bytes.subrange(126, 158),
                },
            )
        }
    }

    /// The same record with the three encrypted fields taken from `p`, each
    /// keeping its length.
    pub open spec fn with_payload(self, p: Seq<u8>) -> SecretKeyView {
        let a = self.keynum.len() as int;
        let b = a + self.sk.len();
        let c = b + self.chk.len();
        SecretKeyView { keynum: p.subrange(0, a), sk: p.subrange(a, b), chk: p.subrange(b, c), ..self }
    }

    /// The record after `stream` was XORed over key number, secret key and
    /// checksum, taken as one run of bytes.
    pub open spec fn xor(self, stream: Seq<u8>) -> SecretKeyView {
        self.with_payload(xor_stream(self.payload(), stream))
    }

    /// What the checksum is computed over: algorithm tag, key number and
    /// secret key.
    pub open spec fn checksum_input(self) -> Seq<u8> {
        self.sig_alg + self.keynum + self.sk
    }

    /// The checksum that belongs to the record's present fields: the
    /// 32-byte digest of `checksum_input`.
    pub open spec fn checksum(self) -> Seq<u8> {
        blake2b(self.checksum_input(), 32)
    }

    /// The keystream that `password` unlocks this record with: derived from
    /// the stored salt and cost limits, as long as the encrypted fields.
    pub open spec fn keystream(self, password: Seq<u8>) -> Seq<u8> {
        scrypt_stream(
            password,
            self.kdf_salt,
            le64_value(self.kdf_opslimit_le),
            le64_value(self.kdf_memlimit_le),
            104,
        )
    }

    /// The same record with every byte of the three secret fields zero.
    pub open spec fn wiped(self) -> SecretKeyView {
        SecretKeyView {
            keynum: Seq::new(self.keynum.len(), |i: int| 0u8),
            sk: Seq::new(self.sk.len(), |i: int| 0u8),
            chk: Seq::new(self.chk.len(), |i: int| 0u8),
            ..self
        }
    }

    /// The same record with `chk` as its checksum field.
    pub open spec fn with_chk(self, chk: Seq<u8>) -> SecretKeyView {
        SecretKeyView { chk, ..self }
    }

    /// A well-formed record always encodes to 158 bytes.
    pub proof fn lemma_encode_len(self)
        requires
            self.wf(),
        ensures
            self.encode().len() == 158,
    {
    }

    /// Decoding what was encoded gives the record back, field by field.
    pub proof fn lemma_decode_encode(self)
        requires
            self.wf(),
        ensures
            Self::decode(self.encode()) == Ok::<SecretKeyView, Error>(self),
    {
        let b = self.encode();
        assert(b.subrange(0, 2) =~= self.sig_alg);
        assert(b.subrange(2, 4) =~= self.kdf_alg);
        assert(b.subrange(4, 6) =~= self.chk_alg);
        assert(b.subrange(6, 38) =~= self.kdf_salt);
        assert(b.subrange(38, 46) =~= self.kdf_opslimit_le);
        assert(b.subrange(46, 54) =~= self.kdf_memlimit_le);
        assert(b.subrange(54, 62) =~= self.keynum);
        assert(b.subrange(62, 126) =~= self.sk);
        assert(b.subrange(126, 158) =~= self.chk);
    }

    /// Encoding what was decoded gives the leading 158 bytes back.
    pub proof fn lemma_encode_decode(bytes: Seq<u8>)
        requires
            bytes.len() >= 158,
        ensures
            Self::decode(bytes) is Ok,
            Self::decode(bytes)->Ok_0.wf(),
            Self::decode(bytes)->Ok_0.encode() == bytes.subrange(0, 158),
    {
        assert(Self::decode(bytes)->Ok_0.encode() =~= bytes.subrange(0, 158));
    }

    /// Putting a record's own payload back changes nothing.
    pub proof fn lemma_with_own_payload(self)
        ensures
            self.with_payload(self.payload()) == self,
    {
        let p = self.payload();
        let a = self.keynum.len() as int;
        let b = a + self.sk.len();
        let c = b + self.chk.len();
        assert(p.subrange(0, a) =~= self.keynum);
        assert(p.subrange(a, b) =~= self.sk);
        assert(p.subrange(b, c) =~= self.chk);
    }

    /// XORing keeps the clear fields and every field's length.
    pub proof fn lemma_xor_keeps_shape(self, stream: Seq<u8>)
        ensures
            self.xor(stream).header() == self.header(),
            self.xor(stream).keynum.len() == self.keynum.len(),
            self.xor(stream).sk.len() == self.sk.len(),
            self.xor(stream).chk.len() == self.chk.len(),
            self.xor(stream).payload() == xor_stream(self.payload(), stream),
            self.wf() ==> self.xor(stream).wf(),
    {
        let p = xor_stream(self.payload(), stream);
        let a = self.keynum.len() as int;
        let b = a + self.sk.len();
        let c = b + self.chk.len();
        assert(p.subrange(0, a) + p.subrange(a, b) + p.subrange(b, c) =~= p);
    }

    /// XORing the stream over the three fields as one run is XORing it over
    /// the key number, what is left of it over the secret key, and what is
    /// left after that over the checksum.
    pub proof fn lemma_xor_by_fields(self, stream: Seq<u8>)
        ensures
            self.xor(stream).keynum == xor_stream(self.keynum, stream),
            self.xor(stream).sk == xor_stream(self.sk, stream_rest(stream, self.keynum.len())),
            self.xor(stream).chk == xor_stream(
                self.chk,
                stream_rest(stream_rest(stream, self.keynum.len()), self.sk.len()),
            ),
    {
        let rest = stream_rest(stream, self.keynum.len());
        let tail = stream_rest(rest, self.sk.len());
        lemma_xor_stream_concat(self.keynum, self.sk + self.chk, stream);
        lemma_xor_stream_concat(self.sk, self.chk, rest);
        assert(self.keynum + (self.sk + self.chk) =~= self.payload());
        let p = xor_stream(self.payload(), stream);
        let a = self.keynum.len() as int;
        let b = a + self.sk.len();
        let c = b + self.chk.len();
        assert(p =~= xor_stream(self.keynum, stream) + (xor_stream(self.sk, rest) + xor_stream(
            self.chk,
            tail,
        )));
        assert(p.subrange(0, a) =~= xor_stream(self.keynum, stream));
        assert(p.subrange(a, b) =~= xor_stream(self.sk, rest));
        assert(p.subrange(b, c) =~= xor_stream(self.chk, tail));
    }

    /// Applying the same keystream twice restores the record: encryption
    /// and decryption are one operation.
    pub proof fn lemma_xor_involution(self, stream: Seq<u8>)
        ensures
            self.xor(stream).xor(stream) == self,
    {
        self.lemma_xor_keeps_shape(stream);
        let once = self.xor(stream);
        lemma_xor_stream_involution(self.payload(), stream);
        assert(once.xor(stream) == once.with_payload(self.payload()));
        self.lemma_with_own_payload();
    }

    /// Encrypting with a password and decrypting with the same password
    /// restores the record: the keystream depends only on the fields that
    /// stay in the clear.
    pub proof fn lemma_password_roundtrip(self, password: Seq<u8>)
        ensures
            self.xor(self.keystream(password)).keystream(password) == self.keystream(password),
            self.xor(self.keystream(password)).xor(self.keystream(password)) == self,
    {
        self.lemma_xor_involution(self.keystream(password));
    }

    /// A record whose checksum holds, encrypted with a password and then
    /// decrypted with the same password, is the record again and its
    /// checksum holds again.
    pub proof fn lemma_right_password_verifies(self, password: Seq<u8>)
        requires
            self.chk == self.checksum(),
        ensures
            ({
                let stored = self.xor(self.keystream(password));
                let opened = stored.xor(stored.keystream(password));
                opened == self && opened.chk == opened.checksum()
            }),
    {
        self.lemma_password_roundtrip(password);
    }

    /// Decrypting with a keystream that differs from the one used to
    /// encrypt, at a byte of the encrypted fields that both reach, does not
    /// give the record back.
    pub proof fn lemma_other_keystream_changes_record(
        self,
        right: Seq<u8>,
        wrong: Seq<u8>,
        i: int,
    )
        requires
            0 <= i < self.payload().len(),
            i < right.len(),
            i < wrong.len(),
            right[i] != wrong[i],
        ensures
            self.xor(right).xor(wrong) != self,
    {
        let stored = self.xor(right);
        self.lemma_xor_keeps_shape(right);
        stored.lemma_xor_keeps_shape(wrong);
        stored.lemma_xor_keeps_shape(right);
        self.lemma_xor_involution(right);
        lemma_xor_stream_differs(stored.payload(), right, wrong, i);
        assert(stored.xor(right).payload()[i] != stored.xor(wrong).payload()[i]);
    }
}

} // verus!
