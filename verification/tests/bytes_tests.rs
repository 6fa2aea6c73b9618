use cipherdsl::bytes::{bytes_eq, hex_decode, u64_to_be_bytes, u64_to_hex};

#[test]
fn big_endian_counter_encoding() {
    assert_eq!(u64_to_be_bytes(1), 1u64.to_be_bytes().to_vec());
    assert_eq!(u64_to_be_bytes(0xdead_beef_0102_0304), vec![0xde, 0xad, 0xbe, 0xef, 1, 2, 3, 4]);
}

#[test]
fn identifiers_render_as_fixed_width_lowercase_hex() {
    assert_eq!(u64_to_hex(0xdeadbeef), b"00000000deadbeef".to_vec());
    assert_eq!(u64_to_hex(0), b"0000000000000000".to_vec());
    assert_eq!(u64_to_hex(u64::MAX), b"ffffffffffffffff".to_vec());
}

#[test]
fn hex_decoding_accepts_both_cases_and_rejects_the_rest() {
    assert_eq!(hex_decode(&b"deadBEEF".to_vec()), Some(vec![0xde, 0xad, 0xbe, 0xef]));
    assert_eq!(hex_decode(&Vec::new()), Some(Vec::new()));
    assert_eq!(hex_decode(&b"abc".to_vec()), None);
    assert_eq!(hex_decode(&b"g0".to_vec()), None);
}

#[test]
fn byte_comparison_is_exact() {
    assert!(bytes_eq(&b"same".to_vec(), &b"same".to_vec()));
    assert!(!bytes_eq(&b"same".to_vec(), &b"samf".to_vec()));
    assert!(!bytes_eq(&b"same".to_vec(), &b"sam".to_vec()));
}
