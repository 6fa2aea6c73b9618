use cipherdsl::api::{decrypt, encrypt};
use cipherdsl::errors::CipherError;
use cipherdsl::pipeline::OpTag;
use cipherdsl::ratchet::rolling_key;
use sha3::{Digest, Sha3_512};

#[test]
fn end_to_end_scenario() {
    let seed = b"correct-horse".to_vec();
    let pt = b"hello world".to_vec();
    let bundle = encrypt(&seed, pt.clone()).unwrap();

    assert_eq!(bundle.steps.len(), 3);
    assert_eq!(bundle.steps[0].op, OpTag::RollingKey);
    assert!(bundle.steps[0].nonce.is_none());
    assert!(bundle.steps[0].aad.is_none());
    assert_eq!(bundle.steps[1].op, OpTag::AesGcmEnc);
    assert_eq!(bundle.steps[1].nonce.as_ref().unwrap().len(), 12);
    assert_eq!(bundle.steps[1].aad.as_ref().unwrap(), &b"adap".to_vec());
    assert_eq!(bundle.steps[2].op, OpTag::ChaChaEnc);
    assert_eq!(bundle.steps[2].nonce.as_ref().unwrap().len(), 12);
    assert_eq!(bundle.steps[2].aad.as_ref().unwrap(), &b"evolve".to_vec());
    assert_eq!(bundle.data.len(), pt.len() + 32);
    assert!(!bundle.data.is_empty());
    assert_eq!(bundle.id.len(), 16);
    assert!(bundle.id.iter().all(|b| b.is_ascii_hexdigit() && !b.is_ascii_uppercase()));

    let recovered = decrypt(&seed, &bundle).unwrap();
    assert_eq!(recovered, pt);

    let wrong = b"wrong-horse".to_vec();
    assert_eq!(decrypt(&wrong, &bundle), Err(CipherError::AuthenticationFailure));
}

#[test]
fn round_trip_various_inputs() {
    let cases: Vec<(Vec<u8>, Vec<u8>)> = vec![
        (b"a".to_vec(), Vec::new()),
        (b"0xdeadbeef".to_vec(), b"x".to_vec()),
        (b"a seed that is much longer than thirty-two bytes".to_vec(), vec![0u8; 1000]),
        ((0u8..32u8).collect(), b"binary\x00\x01\x02".to_vec()),
    ];
    for (seed, pt) in cases {
        let bundle = encrypt(&seed, pt.clone()).unwrap();
        assert_eq!(decrypt(&seed, &bundle).unwrap(), pt);
    }
}

#[test]
fn bad_seed_fails_before_any_work() {
    let seed = b"0xnothex".to_vec();
    assert!(matches!(encrypt(&seed, b"data".to_vec()), Err(CipherError::SeedDecodeError)));
    let good = b"good".to_vec();
    let bundle = encrypt(&good, b"data".to_vec()).unwrap();
    assert_eq!(decrypt(&seed, &bundle), Err(CipherError::SeedDecodeError));
}

#[test]
fn ratchet_is_deterministic() {
    let key = vec![7u8; 32];
    let extra = 1u64.to_be_bytes().to_vec();
    let a = rolling_key(&key, 1, &extra);
    let b = rolling_key(&key, 1, &extra);
    assert_eq!(a, b);
    assert_eq!(a.len(), 32);
    // Any change to the key, the counter or the auxiliary bytes changes
    // the output.
    assert_ne!(a, rolling_key(&vec![8u8; 32], 1, &extra));
    assert_ne!(a, rolling_key(&key, 2, &extra));
    assert_ne!(a, rolling_key(&key, 1, &vec![0u8; 8]));
}

#[test]
fn ratchet_matches_wide_hash_construction() {
    let key = vec![3u8; 32];
    let counter: u64 = 5;
    let extra = counter.to_be_bytes().to_vec();
    let derived = rolling_key(&key, counter, &extra);

    let mut h = Sha3_512::new();
    h.update(&key);
    h.update(counter.to_be_bytes());
    h.update(&extra);
    let digest = h.finalize();
    assert_eq!(derived.as_slice(), &digest[..32]);
}

#[test]
fn nonces_are_not_repeated_across_invocations() {
    let seed = b"correct-horse".to_vec();
    let mut aes_nonces: Vec<Vec<u8>> = Vec::new();
    let mut chacha_nonces: Vec<Vec<u8>> = Vec::new();
    for _ in 0..8 {
        let bundle = encrypt(&seed, b"hello world".to_vec()).unwrap();
        aes_nonces.push(bundle.steps[1].nonce.clone().unwrap());
        chacha_nonces.push(bundle.steps[2].nonce.clone().unwrap());
    }
    for i in 0..aes_nonces.len() {
        for j in 0..i {
            assert_ne!(aes_nonces[i], aes_nonces[j]);
            assert_ne!(chacha_nonces[i], chacha_nonces[j]);
        }
    }
}

#[test]
fn flipping_any_data_bit_is_detected() {
    let seed = b"correct-horse".to_vec();
    let bundle = encrypt(&seed, b"hello world".to_vec()).unwrap();
    for byte in 0..bundle.data.len() {
        for bit in 0..8 {
            let mut tampered = bundle.clone();
            tampered.data[byte] ^= 1u8 << bit;
            assert_eq!(decrypt(&seed, &tampered), Err(CipherError::AuthenticationFailure));
        }
    }
}

#[test]
fn flipping_any_nonce_or_aad_bit_is_detected() {
    let seed = b"correct-horse".to_vec();
    let bundle = encrypt(&seed, b"hello world".to_vec()).unwrap();
    for step in [1usize, 2usize] {
        let nonce_len = bundle.steps[step].nonce.as_ref().unwrap().len();
        for byte in 0..nonce_len {
            for bit in 0..8 {
                let mut tampered = bundle.clone();
                tampered.steps[step].nonce.as_mut().unwrap()[byte] ^= 1u8 << bit;
                assert_eq!(decrypt(&seed, &tampered), Err(CipherError::AuthenticationFailure));
            }
        }
        let aad_len = bundle.steps[step].aad.as_ref().unwrap().len();
        for byte in 0..aad_len {
            for bit in 0..8 {
                let mut tampered = bundle.clone();
                tampered.steps[step].aad.as_mut().unwrap()[byte] ^= 1u8 << bit;
                assert_eq!(decrypt(&seed, &tampered), Err(CipherError::AuthenticationFailure));
            }
        }
    }
}

#[test]
fn wrong_step_count_is_rejected_as_malformed() {
    let seed = b"correct-horse".to_vec();
    let bundle = encrypt(&seed, b"hello world".to_vec()).unwrap();

    let mut short = bundle.clone();
    short.steps.pop();
    assert_eq!(decrypt(&seed, &short), Err(CipherError::MalformedBundle));

    let mut long = bundle.clone();
    let extra = long.steps[0].clone();
    long.steps.push(extra);
    assert_eq!(decrypt(&seed, &long), Err(CipherError::MalformedBundle));
}

#[test]
fn tag_out_of_position_is_rejected_as_malformed() {
    let seed = b"correct-horse".to_vec();
    let bundle = encrypt(&seed, b"hello world".to_vec()).unwrap();
    let mut swapped = bundle.clone();
    swapped.steps.swap(1, 2);
    assert_eq!(decrypt(&seed, &swapped), Err(CipherError::MalformedBundle));
}

#[test]
fn missing_or_misshapen_fields_are_rejected_as_malformed() {
    let seed = b"correct-horse".to_vec();
    let bundle = encrypt(&seed, b"hello world".to_vec()).unwrap();

    let mut no_nonce = bundle.clone();
    no_nonce.steps[1].nonce = None;
    assert_eq!(decrypt(&seed, &no_nonce), Err(CipherError::MalformedBundle));

    let mut no_aad = bundle.clone();
    no_aad.steps[2].aad = None;
    assert_eq!(decrypt(&seed, &no_aad), Err(CipherError::MalformedBundle));

    let mut short_nonce = bundle.clone();
    short_nonce.steps[1].nonce = Some(vec![0u8; 11]);
    assert_eq!(decrypt(&seed, &short_nonce), Err(CipherError::MalformedBundle));

    let mut ratchet_with_nonce = bundle.clone();
    ratchet_with_nonce.steps[0].nonce = Some(vec![0u8; 12]);
    assert_eq!(decrypt(&seed, &ratchet_with_nonce), Err(CipherError::MalformedBundle));
}
