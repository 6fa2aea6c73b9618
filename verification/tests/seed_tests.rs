use cipherdsl::errors::CipherError;
use cipherdsl::seed::{normalize_seed, parse_seed, seed_key};

#[test]
fn exact_32_byte_seed_passes_through() {
    let seed: Vec<u8> = (0u8..32u8).collect();
    let key = normalize_seed(&seed);
    assert_eq!(key, seed);
}

#[test]
fn short_seed_is_zero_padded() {
    let seed = b"correct-horse".to_vec();
    let key = normalize_seed(&seed);
    assert_eq!(key.len(), 32);
    assert_eq!(&key[..13], b"correct-horse");
    assert!(key[13..].iter().all(|&b| b == 0));
}

#[test]
fn long_seed_is_truncated() {
    let seed: Vec<u8> = (0u8..40u8).collect();
    let key = normalize_seed(&seed);
    let expected: Vec<u8> = (0u8..32u8).collect();
    assert_eq!(key, expected);
}

#[test]
fn hex_literal_decodes_before_normalization() {
    let seed = b"0xdeadbeef".to_vec();
    let raw = parse_seed(&seed).unwrap();
    assert_eq!(raw, vec![0xde, 0xad, 0xbe, 0xef]);
    let key = seed_key(&seed).unwrap();
    assert_eq!(&key[..4], &[0xde, 0xad, 0xbe, 0xef]);
    assert!(key[4..].iter().all(|&b| b == 0));
}

#[test]
fn uppercase_hex_prefix_and_digits() {
    let seed = b"0XDEADBEEF".to_vec();
    let raw = parse_seed(&seed).unwrap();
    assert_eq!(raw, vec![0xde, 0xad, 0xbe, 0xef]);
}

#[test]
fn non_hex_body_is_rejected() {
    let seed = b"0xzz".to_vec();
    assert_eq!(parse_seed(&seed), Err(CipherError::SeedDecodeError));
    assert!(matches!(seed_key(&seed), Err(CipherError::SeedDecodeError)));
}

#[test]
fn odd_length_hex_body_is_rejected() {
    let seed = b"0xabc".to_vec();
    assert_eq!(parse_seed(&seed), Err(CipherError::SeedDecodeError));
}

#[test]
fn raw_seed_is_taken_verbatim() {
    let seed = b"plain seed".to_vec();
    assert_eq!(parse_seed(&seed).unwrap(), seed);
}
