use rsign::types::SecretKey;
use rsign::{
    assemble_keystruct, gen_keystruct, Error, KeynumPK, KeynumSK, PubkeyStruct, SeckeyStruct,
    SigStruct, SIG_DEFAULT_CONFIG_DIR_ENV_VAR, SIG_SUFFIX, VERSION_STRING,
};

fn sample_struct() -> SeckeyStruct {
    SeckeyStruct {
        sig_alg: vec![0x45, 0x64],
        kdf_alg: vec![0x53, 0x63],
        chk_alg: vec![0x42, 0x32],
        kdf_salt: (0..32).collect(),
        kdf_opslimit_le: 524_288,
        kdf_memlimit_le: 16_777_216,
        keynum_sk: KeynumSK {
            keynum: vec![1, 2, 3, 4, 5, 6, 7, 8],
            sk: (0..64).collect(),
            chk: vec![0; 32],
        },
    }
}

#[test]
fn seckey_struct_bytes_lays_fields_out_in_order() {
    let key = sample_struct();
    let bytes = key.bytes();
    assert_eq!(bytes.len(), 158);
    assert_eq!(&bytes[0..6], b"EdScB2");
    assert_eq!(&bytes[6..38], &key.kdf_salt[..]);
    assert_eq!(&bytes[38..46], &[0, 0, 8, 0, 0, 0, 0, 0]);
    assert_eq!(&bytes[46..54], &[0, 0, 0, 1, 0, 0, 0, 0]);
    assert_eq!(&bytes[54..62], &key.keynum_sk.keynum[..]);
    assert_eq!(&bytes[62..126], &key.keynum_sk.sk[..]);
    assert_eq!(&bytes[126..158], &key.keynum_sk.chk[..]);
}

#[test]
fn seckey_struct_round_trips() {
    let mut key = sample_struct();
    key.kdf_opslimit_le = 0x0102_0304_0506_0708;
    key.kdf_memlimit_le = u64::MAX;
    let back = SeckeyStruct::from(&key.bytes()).unwrap();
    assert_eq!(back.sig_alg, key.sig_alg);
    assert_eq!(back.kdf_alg, key.kdf_alg);
    assert_eq!(back.chk_alg, key.chk_alg);
    assert_eq!(back.kdf_salt, key.kdf_salt);
    assert_eq!(back.kdf_opslimit_le, key.kdf_opslimit_le);
    assert_eq!(back.kdf_memlimit_le, key.kdf_memlimit_le);
    assert_eq!(back.keynum_sk.keynum, key.keynum_sk.keynum);
    assert_eq!(back.keynum_sk.sk, key.keynum_sk.sk);
    assert_eq!(back.keynum_sk.chk, key.keynum_sk.chk);
}

#[test]
fn seckey_struct_from_short_input_is_truncated() {
    assert!(matches!(SeckeyStruct::from(&[0u8; 157]), Err(Error::TruncatedInput)));
    assert!(matches!(SeckeyStruct::from(&[0u8; 126]), Err(Error::TruncatedInput)));
    assert!(matches!(SeckeyStruct::from(&[]), Err(Error::TruncatedInput)));
    assert!(SeckeyStruct::from(&[0u8; 158]).is_ok());
}

#[test]
fn seckey_struct_from_reads_only_the_leading_bytes() {
    let mut bytes = sample_struct().bytes();
    bytes.extend_from_slice(&[0xee; 7]);
    let back = SeckeyStruct::from(&bytes).unwrap();
    assert_eq!(back.keynum_sk.chk.len(), 32);
    assert_eq!(back.bytes(), sample_struct().bytes());
}

#[test]
fn seckey_struct_agrees_with_the_fixed_width_record() {
    let mut key = sample_struct();
    key.checksum();
    let fixed = SecretKey::from_bytes(&key.bytes()).unwrap();
    assert_eq!(fixed.to_bytes(), key.bytes());
    assert!(fixed.verify_checksum());
    assert_eq!(fixed.kdf_opslimit_le, [0, 0, 8, 0, 0, 0, 0, 0]);
}

#[test]
fn seckey_struct_checksum_is_blake2b_of_tag_keynum_and_key() {
    let mut key = sample_struct();
    key.checksum();
    assert_eq!(
        key.keynum_sk.chk,
        vec![
            80, 210, 146, 90, 214, 3, 182, 78, 98, 126, 136, 96, 41, 127, 120, 247, 108, 90, 123,
            85, 46, 40, 66, 88, 9, 226, 16, 46, 255, 68, 101, 119,
        ]
    );
    assert_eq!(key.keynum_sk.sk, sample_struct().keynum_sk.sk);
    assert_eq!(key.sig_alg, vec![0x45, 0x64]);
}

#[test]
fn seckey_struct_xor_keynum_runs_over_the_three_fields() {
    let mut key = sample_struct();
    key.keynum_sk.chk = vec![0x0f; 32];
    let plain = key.bytes();
    let stream: Vec<u8> = (0..104).map(|i| 200 - i as u8).collect();
    key.xor_keynum(stream.clone());
    let cipher = key.bytes();
    assert_eq!(&cipher[..54], &plain[..54]);
    for i in 0..104 {
        assert_eq!(cipher[54 + i], plain[54 + i] ^ stream[i]);
    }
    key.xor_keynum(stream);
    assert_eq!(key.bytes(), plain);
}

#[test]
fn seckey_struct_xor_keynum_with_a_short_stream() {
    let mut key = sample_struct();
    let plain = key.bytes();
    key.xor_keynum(vec![0xff; 9]);
    let after = key.bytes();
    for i in 0..9 {
        assert_eq!(after[54 + i], plain[54 + i] ^ 0xff);
    }
    assert_eq!(&after[63..], &plain[63..]);
    assert_eq!(key.keynum_sk.keynum.len(), 8);
    assert_eq!(key.keynum_sk.sk.len(), 64);
}

#[test]
fn seckey_struct_as_ref_is_the_algorithm_tag() {
    assert_eq!(sample_struct().as_ref(), &[0x45, 0x64]);
}

#[test]
fn seckey_struct_len_is_its_size_in_memory() {
    assert_eq!(sample_struct().len(), std::mem::size_of::<SeckeyStruct>());
}

#[test]
fn keynum_sk_len_adds_the_field_lengths() {
    assert_eq!(sample_struct().keynum_sk.len(), 104);
    assert_eq!(KeynumSK::default().len(), 0);
    let odd = KeynumSK { keynum: vec![1], sk: vec![2, 3], chk: vec![] };
    assert_eq!(odd.len(), 3);
}

#[test]
fn pubkey_struct_round_trips() {
    let pk = PubkeyStruct {
        sig_alg: [0x45, 0x64],
        keynum_pk: KeynumPK { keynum: [1, 2, 3, 4, 5, 6, 7, 8], pk: [0xaa; 32] },
    };
    let bytes = pk.bytes();
    assert_eq!(bytes.len(), 42);
    assert_eq!(&bytes[0..2], &[0x45, 0x64]);
    assert_eq!(&bytes[2..10], &[1, 2, 3, 4, 5, 6, 7, 8]);
    assert_eq!(&bytes[10..], &[0xaa; 32]);
    let back = PubkeyStruct::from(&bytes).unwrap();
    assert_eq!(back.sig_alg, pk.sig_alg);
    assert_eq!(back.keynum_pk.keynum, pk.keynum_pk.keynum);
    assert_eq!(back.keynum_pk.pk, pk.keynum_pk.pk);
}

#[test]
fn pubkey_struct_from_forty_bytes_is_truncated() {
    assert!(matches!(PubkeyStruct::from(&[0u8; 40]), Err(Error::TruncatedInput)));
    assert!(matches!(PubkeyStruct::from(&[0u8; 2]), Err(Error::TruncatedInput)));
    assert!(PubkeyStruct::from(&[0u8; 42]).is_ok());
    assert!(PubkeyStruct::from(&[0u8; 50]).is_ok());
}

#[test]
fn sig_struct_round_trips() {
    let sig = SigStruct { sig_alg: vec![0x45, 0x64], keynum: vec![9; 8], sig: (100..164).collect() };
    let bytes = sig.bytes();
    assert_eq!(bytes.len(), 74);
    assert_eq!(&bytes[0..2], &[0x45, 0x64]);
    assert_eq!(&bytes[2..10], &[9; 8]);
    assert_eq!(&bytes[10..], &sig.sig[..]);
    let back = SigStruct::from(&bytes).unwrap();
    assert_eq!(back.sig_alg, sig.sig_alg);
    assert_eq!(back.keynum, sig.keynum);
    assert_eq!(back.sig, sig.sig);
}

#[test]
fn sig_struct_from_short_input_is_truncated() {
    assert!(matches!(SigStruct::from(&[0u8; 73]), Err(Error::TruncatedInput)));
    assert!(matches!(SigStruct::from(&[0u8; 9]), Err(Error::TruncatedInput)));
    let back = SigStruct::from(&[7u8; 80]).unwrap();
    assert_eq!(back.sig.len(), 64);
}

#[test]
fn sig_struct_default_is_all_zero() {
    let sig = SigStruct::default();
    assert_eq!(sig.sig_alg, vec![0u8; 2]);
    assert_eq!(sig.keynum, vec![0u8; 8]);
    assert_eq!(sig.sig, vec![0u8; 64]);
}

#[test]
fn assemble_keystruct_places_every_part() {
    let (p, s) = assemble_keystruct(
        [1, 2, 3, 4, 5, 6, 7, 8],
        [0x11; 32],
        [0x22; 64],
        [0x33; 32],
        33_554_432,
        1_073_741_824,
    );
    assert_eq!(p.sig_alg, [0x45, 0x64]);
    assert_eq!(p.keynum_pk.keynum, [1, 2, 3, 4, 5, 6, 7, 8]);
    assert_eq!(p.keynum_pk.pk, [0x11; 32]);
    assert_eq!(s.sig_alg, b"Ed".to_vec());
    assert_eq!(s.kdf_alg, b"Sc".to_vec());
    assert_eq!(s.chk_alg, b"B2".to_vec());
    assert_eq!(s.kdf_salt, vec![0x33; 32]);
    assert_eq!(s.kdf_opslimit_le, 33_554_432);
    assert_eq!(s.kdf_memlimit_le, 1_073_741_824);
    assert_eq!(s.keynum_sk.keynum, vec![1, 2, 3, 4, 5, 6, 7, 8]);
    assert_eq!(s.keynum_sk.sk, vec![0x22; 64]);
    assert_eq!(s.keynum_sk.chk.len(), 32);
    assert_eq!(p.bytes().len(), 42);
    assert_eq!(s.bytes().len(), 158);
}

#[test]
fn assemble_keystruct_sets_the_checksum() {
    let mut sk = [0u8; 64];
    for i in 0..64 {
        sk[i] = i as u8;
    }
    let (_, s) = assemble_keystruct(
        [1, 2, 3, 4, 5, 6, 7, 8],
        [0x11; 32],
        sk,
        [0x33; 32],
        524_288,
        16_777_216,
    );
    assert_eq!(
        s.keynum_sk.chk,
        vec![
            80, 210, 146, 90, 214, 3, 182, 78, 98, 126, 136, 96, 41, 127, 120, 247, 108, 90, 123,
            85, 46, 40, 66, 88, 9, 226, 16, 46, 255, 68, 101, 119,
        ]
    );
    assert!(SecretKey::from_bytes(&s.bytes()).unwrap().verify_checksum());
}

#[test]
fn root_constants_keep_their_values() {
    assert_eq!(VERSION_STRING, "rsign 0.1");
    assert_eq!(SIG_SUFFIX, ".rsign");
    assert_eq!(SIG_DEFAULT_CONFIG_DIR_ENV_VAR, "MINISIGN_CONFIG_DIR");
}

#[test]
fn seckey_struct_checksum_of_an_odd_record_has_32_bytes() {
    let mut key = SeckeyStruct {
        sig_alg: Vec::new(),
        kdf_alg: Vec::new(),
        chk_alg: Vec::new(),
        kdf_salt: Vec::new(),
        kdf_opslimit_le: 0,
        kdf_memlimit_le: 0,
        keynum_sk: KeynumSK::default(),
    };
    key.checksum();
    assert_eq!(
        key.keynum_sk.chk,
        vec![
            0x0e, 0x57, 0x51, 0xc0, 0x26, 0xe5, 0x43, 0xb2, 0xe8, 0xab, 0x2e, 0xb0, 0x60, 0x99,
            0xda, 0xa1, 0xd1, 0xe5, 0xdf, 0x47, 0x77, 0x8f, 0x77, 0x87, 0xfa, 0xab, 0x45, 0xcd,
            0xf1, 0x2f, 0xe3, 0xa8,
        ]
    );
    let mut long = SeckeyStruct::from(&[9u8; 158]).unwrap();
    long.keynum_sk.sk = vec![7; 500];
    long.checksum();
    assert_eq!(long.keynum_sk.chk.len(), 32);
}

#[test]
fn generated_records_share_the_key_number() {
    sodiumoxide::init().unwrap();
    let (p, s) = gen_keystruct();
    assert_eq!(&p.keynum_pk.keynum[..], &s.keynum_sk.keynum[..]);
    assert_eq!(p.sig_alg, [0x45, 0x64]);
    assert_eq!(s.sig_alg, b"Ed".to_vec());
    assert_eq!(s.kdf_alg, b"Sc".to_vec());
    assert_eq!(s.chk_alg, b"B2".to_vec());
    assert_eq!(s.kdf_salt.len(), 32);
    assert_eq!(s.keynum_sk.sk.len(), 64);
    assert_eq!(s.keynum_sk.chk.len(), 32);
    assert_eq!(s.kdf_opslimit_le, 33_554_432);
    assert_eq!(s.kdf_memlimit_le, 1_073_741_824);
    assert_eq!(p.bytes().len(), 42);
    assert_eq!(s.bytes().len(), 158);
}

#[test]
fn generated_secret_key_is_plaintext_with_its_checksum() {
    sodiumoxide::init().unwrap();
    let (p, s) = gen_keystruct();
    let stored = s.keynum_sk.chk.clone();
    let mut again = s.clone();
    again.keynum_sk.chk = Vec::new();
    again.checksum();
    assert_eq!(again.keynum_sk.chk, stored);
    assert!(SecretKey::from_bytes(&s.bytes()).unwrap().verify_checksum());
    assert_eq!(&s.keynum_sk.sk[32..], &p.keynum_pk.pk[..]);
}

#[test]
fn generated_keys_differ() {
    sodiumoxide::init().unwrap();
    let (p1, s1) = gen_keystruct();
    let (p2, s2) = gen_keystruct();
    assert_ne!(p1.keynum_pk.keynum, p2.keynum_pk.keynum);
    assert_ne!(p1.keynum_pk.pk, p2.keynum_pk.pk);
    assert_ne!(s1.kdf_salt, s2.kdf_salt);
    assert_ne!(s1.keynum_sk.sk, s2.keynum_sk.sk);
}

#[test]
fn generated_key_survives_encryption_with_a_password() {
    sodiumoxide::init().unwrap();
    let (p, mut s) = gen_keystruct();
    s.kdf_opslimit_le = 524_288;
    s.kdf_memlimit_le = 16_777_216;
    let plain = SecretKey::from_bytes(&s.bytes()).unwrap();
    let mut key = SecretKey::from_bytes(&s.bytes()).unwrap();
    assert_eq!(key.keynum_sk.keynum, p.keynum_pk.keynum);
    assert_eq!(key.encrypt_with_password(b"hunter2"), Ok(()));
    let on_disk = key.to_bytes();
    assert_ne!(on_disk, plain.to_bytes());
    let mut loaded = SecretKey::from_bytes(&on_disk).unwrap();
    assert_eq!(loaded.decrypt_with_password(b"hunter2"), Ok(()));
    assert!(loaded == plain);
    assert!(loaded.verify_checksum());
    assert_eq!(loaded.to_bytes(), plain.to_bytes());
    assert_eq!(loaded.keynum_sk.keynum, p.keynum_pk.keynum);
    let mut wrong = SecretKey::from_bytes(&on_disk).unwrap();
    assert_eq!(wrong.decrypt_with_password(b"hunter3"), Err(Error::ChecksumMismatch));
    assert!(!wrong.verify_checksum());
}
