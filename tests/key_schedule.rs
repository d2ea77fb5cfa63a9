use mls_core::crypto::Ciphersuite;
use mls_core::errors::KsTestVectorError;
use mls_core::hex::{bytes_to_hex, hex_to_bytes};
use mls_core::kat::{derive_epoch, generate_test_vector, random_psks, run_test_vector, Epoch, EpochDerivation, KeyScheduleTestVector};
use mls_core::schedule::{
    derive_secret, extract, joiner_secret, psk_secret, EpochSecrets, GroupContext, KeySchedule,
    KeyScheduleError, Label, PreSharedKeyId, Psk, PskValue,
};

fn derive(init: &[u8], commit: &[u8]) -> EpochDerivation {
    let psks = vec![PskValue { psk_id: vec![1, 2, 3], psk: vec![9; 32] }];
    derive_epoch(init, &[7; 16], 3, &[5; 32], commit, &psks, &[6; 32]).unwrap()
}

fn all_secrets(s: &EpochSecrets) -> Vec<Vec<u8>> {
    vec![
        s.init_secret.clone().unwrap(),
        s.sender_data_secret.clone(),
        s.encryption_secret.clone(),
        s.exporter_secret.clone(),
        s.authentication_secret.clone(),
        s.external_secret.clone(),
        s.confirmation_key.clone(),
        s.membership_key.clone(),
        s.resumption_secret.clone(),
    ]
}

#[test]
fn label_text_is_prefixed() {
    assert_eq!(Label::Joiner.prefixed(), b"mls10 joiner".to_vec());
    assert_eq!(Label::SenderData.prefixed(), b"mls10 sender data".to_vec());
    assert_eq!(Label::Membership.prefixed(), b"mls10 membership key".to_vec());
}

#[test]
fn extract_matches_rfc5869_case_one() {
    let ikm = vec![0x0bu8; 22];
    let salt: Vec<u8> = (0x00u8..=0x0c).collect();
    let prk = extract(&salt, &ikm);
    assert_eq!(
        bytes_to_hex(&prk),
        b"077709362c2e32df0ddc3f0dc47bba6390b6c73bb50f9c3122ec844ad7c2b3e5".to_vec()
    );
}

#[test]
fn derived_secrets_have_hash_length() {
    let s = derive_secret(&[1u8; 32], Label::Init);
    assert_eq!(s.len(), 32);
    assert_ne!(s, vec![1u8; 32]);
    assert_ne!(derive_secret(&[1u8; 32], Label::Init), derive_secret(&[1u8; 32], Label::Exporter));
}

#[test]
fn joiner_secret_depends_on_both_inputs() {
    let a = joiner_secret(&[1; 32], &[2; 32]);
    assert_eq!(a.len(), 32);
    assert_ne!(a, joiner_secret(&[1; 32], &[3; 32]));
    assert_ne!(a, joiner_secret(&[4; 32], &[2; 32]));
}

#[test]
fn psk_secret_of_no_keys_is_zero() {
    assert_eq!(psk_secret(&Vec::new()), vec![0u8; 32]);
    let one = vec![PskValue { psk_id: vec![1], psk: vec![2; 32] }];
    let s = psk_secret(&one);
    assert_eq!(s.len(), 32);
    assert_ne!(s, vec![0u8; 32]);
}

#[test]
fn group_context_encoding() {
    let gc = GroupContext::new(&[0xaa, 0xbb], 0x0102, &[0xcc], &[]).unwrap();
    assert_eq!(
        gc.serialize(),
        vec![2, 0xaa, 0xbb, 0, 0, 0, 0, 0, 0, 1, 2, 1, 0xcc, 0, 0, 0, 0, 0]
    );
    assert!(GroupContext::new(&[0u8; 256], 0, &[], &[]).is_none());
    assert!(GroupContext::new(&[0u8; 255], 0, &[], &[]).is_some());
}

#[test]
fn psk_id_encoding() {
    let id = PreSharedKeyId {
        psk: Psk::Branch { psk_group_id: vec![7, 8], psk_epoch: 5 },
        psk_nonce: vec![9],
    };
    assert_eq!(id.serialize(), vec![3, 2, 7, 8, 0, 0, 0, 0, 0, 0, 0, 5, 1, 9]);
    let ext = PreSharedKeyId { psk: Psk::External { psk_id: vec![1] }, psk_nonce: vec![] };
    assert_eq!(ext.serialize(), vec![1, 1, 1, 0]);
}

#[test]
fn schedule_rejects_calls_out_of_order() {
    let mut ks = KeySchedule::init(&[1; 32], None);
    assert!(matches!(ks.epoch_secrets(true), Err(KeyScheduleError::InvalidState)));
    let gc = GroupContext::new(&[1], 0, &[2], &[3]).unwrap();
    assert!(ks.add_context(&gc).is_ok());
    assert!(matches!(ks.welcome(), Err(KeyScheduleError::InvalidState)));
    assert!(matches!(ks.add_context(&gc), Err(KeyScheduleError::InvalidState)));
    let secrets = ks.epoch_secrets(false).unwrap();
    assert!(secrets.init_secret.is_none());
    assert!(matches!(ks.epoch_secrets(true), Err(KeyScheduleError::InvalidState)));
}

#[test]
fn determinism_of_two_runs() {
    let a = derive(&[1; 32], &[2; 32]);
    let b = derive(&[1; 32], &[2; 32]);
    assert_eq!(a.joiner_secret, b.joiner_secret);
    assert_eq!(a.welcome_secret, b.welcome_secret);
    assert_eq!(all_secrets(&a.secrets), all_secrets(&b.secrets));
    assert_eq!(a.external_pub, b.external_pub);
}

#[test]
fn avalanche_on_one_commit_bit() {
    let a = derive(&[1; 32], &[2; 32]);
    let mut flipped = vec![2u8; 32];
    flipped[0] ^= 1;
    let b = derive(&[1; 32], &flipped);
    assert_ne!(a.joiner_secret, b.joiner_secret);
    assert_ne!(a.welcome_secret, b.welcome_secret);
    for (x, y) in all_secrets(&a.secrets).iter().zip(all_secrets(&b.secrets).iter()) {
        assert_ne!(x, y);
    }
    assert_ne!(a.external_pub, b.external_pub);
}

#[test]
fn welcome_leaves_later_secrets_unchanged() {
    let gc = GroupContext::new(&[1], 4, &[2; 32], &[3; 32]).unwrap();
    let mut with_welcome = KeySchedule::init(&[5; 32], Some(&[6; 32]));
    let w = with_welcome.welcome().unwrap();
    assert_eq!(w.len(), 32);
    with_welcome.add_context(&gc).unwrap();
    let a = with_welcome.epoch_secrets(true).unwrap();
    let mut without = KeySchedule::init(&[5; 32], Some(&[6; 32]));
    without.add_context(&gc).unwrap();
    let b = without.epoch_secrets(true).unwrap();
    assert_eq!(all_secrets(&a), all_secrets(&b));
}

#[test]
fn forward_chaining_reproduces_generated_vector() {
    let tv = generate_test_vector(5, Ciphersuite::X25519Aes128GcmSha256Ed25519).unwrap();
    assert_eq!(tv.epochs.len(), 5);
    assert_eq!(tv.cipher_suite, 1);
    for w in tv.epochs.windows(2) {
        assert_ne!(w[0].init_secret, w[1].init_secret);
    }
    assert!(run_test_vector(tv).is_ok());
}

#[test]
fn tampered_vector_names_the_field() {
    let mut tv = generate_test_vector(3, Ciphersuite::X25519ChaCha20Poly1305Sha256Ed25519).unwrap();
    tv.epochs[1].membership_key[0] ^= 0x80;
    assert_eq!(run_test_vector(tv), Err(KsTestVectorError::MembershipKeyMismatch));

    let mut tv = generate_test_vector(3, Ciphersuite::X25519Aes128GcmSha256Ed25519).unwrap();
    tv.epochs[2].joiner_secret[5] ^= 1;
    tv.epochs[2].external_pub[3] ^= 1;
    assert_eq!(run_test_vector(tv), Err(KsTestVectorError::JoinerSecretMismatch));

    let mut tv = generate_test_vector(2, Ciphersuite::X25519Aes128GcmSha256Ed25519).unwrap();
    tv.epochs[0].group_context.push(0);
    assert_eq!(run_test_vector(tv), Err(KsTestVectorError::GroupContextMismatch));

    let mut tv = generate_test_vector(2, Ciphersuite::X25519Aes128GcmSha256Ed25519).unwrap();
    tv.epochs[1].external_pub[2] ^= 1;
    assert_eq!(run_test_vector(tv), Err(KsTestVectorError::ExternalPubMismatch));
}

#[test]
fn unsupported_suite_is_skipped() {
    let mut tv = generate_test_vector(1, Ciphersuite::X25519Aes128GcmSha256Ed25519).unwrap();
    tv.cipher_suite = 2;
    tv.epochs[0].init_secret[0] ^= 1;
    assert!(run_test_vector(tv).is_ok());
}

#[test]
fn write_test_vectors() {
    for suite in [
        Ciphersuite::X25519Aes128GcmSha256Ed25519,
        Ciphersuite::X25519ChaCha20Poly1305Sha256Ed25519,
    ] {
        let tv = generate_test_vector(200, suite).unwrap();
        assert_eq!(tv.epochs.len(), 200);
        assert!(run_test_vector(tv).is_ok());
    }
}

#[test]
fn read_test_vectors() {
    let tv = generate_test_vector(20, Ciphersuite::X25519Aes128GcmSha256Ed25519).unwrap();
    // Through hexadecimal text and back, as a vector file carries it.
    let mut copy = generate_test_vector(0, Ciphersuite::X25519Aes128GcmSha256Ed25519).unwrap();
    copy.group_id = hex_to_bytes(&bytes_to_hex(&tv.group_id)).unwrap();
    copy.initial_init_secret = hex_to_bytes(&bytes_to_hex(&tv.initial_init_secret)).unwrap();
    copy.epochs = tv.epochs;
    match run_test_vector(copy) {
        Ok(_) => {}
        Err(e) => panic!("Error while checking key schedule test vector.\n{:?}", e),
    }
}

#[test]
fn hex_round_trip_and_errors() {
    assert_eq!(bytes_to_hex(&[0x00, 0xab, 0x7f]), b"00ab7f".to_vec());
    assert_eq!(hex_to_bytes(b"00AB7f"), Some(vec![0x00, 0xab, 0x7f]));
    assert_eq!(hex_to_bytes(b"abc"), None);
    assert_eq!(hex_to_bytes(b"zz"), None);
    assert_eq!(hex_to_bytes(b""), Some(vec![]));
}

#[test]
fn group_context_is_compared_first() {
    let mut tv = generate_test_vector(3, Ciphersuite::X25519Aes128GcmSha256Ed25519).unwrap();
    tv.epochs[1].group_context[0] ^= 1;
    tv.epochs[1].joiner_secret[0] ^= 1;
    tv.epochs[1].welcome_secret[0] ^= 1;
    assert_eq!(run_test_vector(tv), Err(KsTestVectorError::GroupContextMismatch));

    let mut tv = generate_test_vector(1, Ciphersuite::X25519Aes128GcmSha256Ed25519).unwrap();
    tv.epochs[0].welcome_secret[0] ^= 1;
    tv.epochs[0].init_secret[0] ^= 1;
    assert_eq!(run_test_vector(tv), Err(KsTestVectorError::WelcomeSecretMismatch));
}

#[test]
fn unencodable_group_context_is_a_mismatch() {
    let mut tv = generate_test_vector(1, Ciphersuite::X25519Aes128GcmSha256Ed25519).unwrap();
    tv.epochs[0].tree_hash = vec![0; 300];
    tv.epochs[0].joiner_secret[0] ^= 1;
    assert_eq!(run_test_vector(tv), Err(KsTestVectorError::GroupContextMismatch));
}

#[test]
fn generated_vector_shape() {
    let tv = generate_test_vector(4, Ciphersuite::X25519ChaCha20Poly1305Sha256Ed25519).unwrap();
    assert_eq!(tv.cipher_suite, 3);
    assert_eq!(tv.group_id.len(), 16);
    assert_eq!(tv.initial_init_secret.len(), 32);
    for (i, e) in tv.epochs.iter().enumerate() {
        assert_eq!(e.tree_hash.len(), 32);
        assert_eq!(e.commit_secret.len(), 32);
        assert_eq!(e.confirmed_transcript_hash.len(), 32);
        assert_eq!(e.init_secret.len(), 32);
        assert_eq!(e.resumption_secret.len(), 32);
        assert_eq!(e.external_pub.len(), 34);
        assert!(e.psks.len() <= 15);
        for p in &e.psks {
            assert_eq!(p.psk.len(), 32);
            assert_eq!(p.psk_id.len(), 1 + 17 + 8 + 14);
            assert_eq!(p.psk_id[0], 3);
            assert_eq!(p.psk_id[18..26], (i as u64).to_be_bytes());
        }
    }
    let empty = generate_test_vector(0, Ciphersuite::X25519Aes128GcmSha256Ed25519).unwrap();
    assert!(empty.epochs.is_empty());
    assert_eq!(empty.initial_init_secret.len(), 32);
}

#[test]
fn drawn_psks_are_branch_keys() {
    let psks = random_psks(9).unwrap();
    assert!(psks.len() <= 15);
    for p in &psks {
        assert_eq!(p.psk_id[0], 3);
        assert_eq!(p.psk_id[1], 16);
        assert_eq!(p.psk_id[18..26], 9u64.to_be_bytes());
        assert_eq!(p.psk_id[26], 13);
    }
}

fn hex_text(b: &[u8]) -> String {
    String::from_utf8(bytes_to_hex(b)).unwrap()
}

fn recorded_epoch(tree_hash: u8, commit: u8, psks: Vec<PskValue>, outputs: [&str; 13]) -> Epoch {
    let h = |s: &str| hex_to_bytes(s.as_bytes()).unwrap();
    Epoch {
        tree_hash: vec![tree_hash; 32],
        commit_secret: vec![commit; 32],
        psks,
        confirmed_transcript_hash: vec![tree_hash ^ 0xff; 32],
        group_context: h(outputs[0]),
        joiner_secret: h(outputs[1]),
        welcome_secret: h(outputs[2]),
        init_secret: h(outputs[3]),
        sender_data_secret: h(outputs[4]),
        encryption_secret: h(outputs[5]),
        exporter_secret: h(outputs[6]),
        authentication_secret: h(outputs[7]),
        external_secret: h(outputs[8]),
        confirmation_key: h(outputs[9]),
        membership_key: h(outputs[10]),
        resumption_secret: h(outputs[11]),
        external_pub: h(outputs[12]),
    }
}

#[test]
fn recorded_known_answers() {
    let psks = vec![PskValue { psk_id: vec![3, 1, 0xaa, 0, 0, 0, 0, 0, 0, 0, 1, 1, 0xbb], psk: vec![0x33; 32] }];
    let epoch0 = recorded_epoch(0x44, 0x55, psks, [
        "1022222222222222222222222222222222000000000000000020444444444444444444444444444444444444444444444444444444444444444420bbbbbbbbbbbbbbbbbbbbbbbbbbbbbbbbbbbbbbbbbbbbbbbbbbbbbbbbbbbbbbbb00000000",
        "00d327cc1bc59123ca324fba2e470f1189ce7af932f1bd49ac63ee0ba7442897",
        "b4899da12f8f88c3f8071421f13ee9051a5900eef8fc738ea5ea25deb8fbcf10",
        "37113ba89915ccb7418f1a735892563516b689affbdf714f686444c280e87511",
        "64b14071489d38daa54b84d7df3fbafd9403d63c199c77acd969b86fd6f01aa0",
        "4f6cbbb78f48589639a41902b0c1e63802b16a4a02946e53a18fe513dfc6ed7e",
        "ef08358769ec8aa7904e1169e04281d741f09c2bde1de485a0b687bf3a676997",
        "d47b3b2d413a9ef47c5be9cb807065b3ce99a3cbe7941bb3cca1f8a267e2630b",
        "1f07e067144167e016a3e149847bd603a899a7670801411aa11632dbce3a7af1",
        "c0a0f1b81d2f465ee357172f24fa43e4f082a608ff92f351e2e67acacd29a7e1",
        "35fe7dc370f278c0de4def60f2474ad46cfc6d1dec8536aba8f91351917b0866",
        "6bf171416d4a6d0731a28987493365142302378ea5942e482ae9ad2e4e6c2f87",
        "00208e903a1c092ac88a01d244dca1f6a02bba252245853b986eb544b3f98e2aed56",
    ]);
    let epoch1 = recorded_epoch(0x66, 0x77, vec![], [
        "1022222222222222222222222222222222000000000000000120666666666666666666666666666666666666666666666666666666666666666620999999999999999999999999999999999999999999999999999999999999999900000000",
        "c9a2ae6ed9ac588c19a80fe17f1e89b58bf5af17abbaf8b8aaa6b84708d18590",
        "8a46702e1fbd13d19733669dc95b79f9a9a908f0478b36a670cf2e489106e592",
        "ace3645f33e018ed75c44e04e3d36d9f3520a6ed1256e84e969f80c619d92767",
        "f281b1f08a7e83d836eb377f665717dfbebff36a1127a5150942f7ac5a39eaf8",
        "13098dc4d8221c951e6ce74b83211d67d6378704fb39c2b4b8cd099138ff2715",
        "040124caa1b97a62d4a0851ecbb07368d76b429f92af5ba1ce286a797d0c5f94",
        "534669160163ee010ef1b9d9bde26abddf708bae66d77ad6aca442a0ee0397e0",
        "62c3e45e9ce71991ae51edb37dbb240b97bb4bb70b2c89e57886cd59788e33b8",
        "b61942eea3cc704924980fb541e6e82c9844c58ace4856f74df67910a23507bc",
        "6392e986f85a14136892f913c66d9eb8a35e8b2ed1bcaceba792ab0af1936d13",
        "42e03fd6cd2680f1d6360e5799508a51efcabd4d6b4c653d153e0415b5e5656b",
        "00205d511d528fe6cd60a2b9f27f50cab680a30c66e149fb205e971b6bb34154bd20",
    ]);
    let recorded_joiner = epoch0.joiner_secret.clone();
    let tv = KeyScheduleTestVector {
        cipher_suite: 1,
        group_id: vec![0x22; 16],
        initial_init_secret: vec![0x11; 32],
        epochs: vec![epoch0, epoch1],
    };
    assert_eq!(run_test_vector(tv), Ok(()));
    assert_eq!(joiner_secret(&[0x55; 32], &[0x11; 32]), recorded_joiner);
}
