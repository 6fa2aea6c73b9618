use base64::engine::general_purpose;
use base64::Engine;
use cipherdsl::api::{decrypt, encrypt};
use cipherdsl::bundle::{decode_bundle, encode_bundle, parse_tag, WireStep};
use cipherdsl::errors::CipherError;
use cipherdsl::pipeline::OpTag;

#[test]
fn codec_round_trip_preserves_the_bundle() {
    let seed = b"correct-horse".to_vec();
    let pt = b"hello world".to_vec();
    let bundle = encrypt(&seed, pt.clone()).unwrap();
    let wire = encode_bundle(&bundle);
    let back = decode_bundle(&wire).unwrap();

    assert_eq!(back.id, bundle.id);
    assert_eq!(back.data, bundle.data);
    assert_eq!(back.steps.len(), bundle.steps.len());
    for (a, b) in back.steps.iter().zip(bundle.steps.iter()) {
        assert_eq!(a.op, b.op);
        assert_eq!(a.nonce, b.nonce);
        assert_eq!(a.aad, b.aad);
    }
    assert_eq!(decrypt(&seed, &back).unwrap(), pt);
}

#[test]
fn wire_fields_use_standard_base64() {
    let seed = b"correct-horse".to_vec();
    let bundle = encrypt(&seed, b"hello world".to_vec()).unwrap();
    let wire = encode_bundle(&bundle);
    let expected = general_purpose::STANDARD.encode(&bundle.data).into_bytes();
    assert_eq!(wire.data_b64, expected);
    let nonce = bundle.steps[1].nonce.as_ref().unwrap();
    let expected_nonce = general_purpose::STANDARD.encode(nonce).into_bytes();
    assert_eq!(wire.steps[1].nonce_b64.as_ref().unwrap(), &expected_nonce);
    let expected_aad = general_purpose::STANDARD.encode(b"evolve").into_bytes();
    assert_eq!(wire.steps[2].aad_b64.as_ref().unwrap(), &expected_aad);
    assert_eq!(wire.steps[0].op, b"rolling_key".to_vec());
    assert_eq!(wire.steps[1].op, b"aesgcm_enc".to_vec());
    assert_eq!(wire.steps[2].op, b"chacha20poly1305_enc".to_vec());
    assert!(wire.steps[0].nonce_b64.is_none());
    assert!(wire.steps[0].aad_b64.is_none());
}

#[test]
fn unknown_tag_is_an_unsupported_step() {
    let seed = b"correct-horse".to_vec();
    let bundle = encrypt(&seed, b"hello world".to_vec()).unwrap();
    let mut wire = encode_bundle(&bundle);
    wire.steps[1].op = b"mystery_op".to_vec();
    assert!(matches!(decode_bundle(&wire), Err(CipherError::UnsupportedStep)));
}

#[test]
fn unparsable_base64_is_a_malformed_bundle() {
    let seed = b"correct-horse".to_vec();
    let bundle = encrypt(&seed, b"hello world".to_vec()).unwrap();

    let mut bad_data = encode_bundle(&bundle);
    bad_data.data_b64 = b"*** not base64 ***".to_vec();
    assert!(matches!(decode_bundle(&bad_data), Err(CipherError::MalformedBundle)));

    let mut bad_nonce = encode_bundle(&bundle);
    bad_nonce.steps[1].nonce_b64 = Some(b"!!".to_vec());
    assert!(matches!(decode_bundle(&bad_nonce), Err(CipherError::MalformedBundle)));

    let mut bad_padding = encode_bundle(&bundle);
    bad_padding.data_b64.pop();
    assert!(matches!(decode_bundle(&bad_padding), Err(CipherError::MalformedBundle)));
}

#[test]
fn absent_fields_stay_absent() {
    let wire = cipherdsl::bundle::WireBundle {
        id: b"00000000deadbeef".to_vec(),
        steps: vec![WireStep { op: b"rolling_key".to_vec(), nonce_b64: None, aad_b64: None }],
        data_b64: general_purpose::STANDARD.encode(b"x").into_bytes(),
    };
    let bundle = decode_bundle(&wire).unwrap();
    assert!(bundle.steps[0].nonce.is_none());
    assert!(bundle.steps[0].aad.is_none());
    assert_eq!(bundle.data, b"x".to_vec());
    assert_eq!(bundle.id, b"00000000deadbeef".to_vec());
}

#[test]
fn tags_parse_exactly() {
    assert_eq!(parse_tag(&b"rolling_key".to_vec()), Some(OpTag::RollingKey));
    assert_eq!(parse_tag(&b"aesgcm_enc".to_vec()), Some(OpTag::AesGcmEnc));
    assert_eq!(parse_tag(&b"chacha20poly1305_enc".to_vec()), Some(OpTag::ChaChaEnc));
    assert_eq!(parse_tag(&b"rolling_key ".to_vec()), None);
    assert_eq!(parse_tag(&Vec::new()), None);
}
