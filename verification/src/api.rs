use vstd::prelude::*;

use crate::bundle::Bundle;
use crate::bytes::{copy_bytes, spec_hex16, u64_to_hex};
use crate::errors::CipherError;
use crate::outside::random_u64;
use crate::pipeline::{
    aad_adap, aad_evolve, aad_len_ok, aads_ok, aead_count, decrypt_post, decrypt_walk, decrypts_to,
    enc_len_ok, encrypt_walk, fixed_pipeline, rec_from_step, res_view, spec_pipeline, views_of,
};
use crate::seed::{seed_key, seed_ok, spec_seed_key};

verus! {

/// Encrypt invocation: normalizes the seed into the initial key, walks the
/// fixed pipeline forward over the plaintext, and labels the result with a
/// random 64-bit identifier in fixed-width hex.  It fails exactly when the
/// seed literal does not parse.
pub fn encrypt(seed: &Vec<u8>, pt: Vec<u8>) -> (r: Result<Bundle, CipherError>)
    requires
        pt@.len() + 48 < 0x8_0000_0000,
    ensures
        r is Ok <==> seed_ok(seed@),
        r matches Err(e) ==> e == CipherError::SeedDecodeError,
        r matches Ok(b) ==> decrypts_to(spec_seed_key(seed@), b.steps@, b.data@, spec_pipeline(), pt@),
        r matches Ok(b) ==> forall|i: int|
            0 <= i < spec_pipeline().len() ==> rec_from_step(b.steps@[i], spec_pipeline()[i]),
        r matches Ok(b) ==> b.data@.len() == pt@.len() + 32,
        r matches Ok(b) ==> b.id@.len() == 16 && (exists|n: u64| b.id@ == spec_hex16(n)),
{
    let key = match seed_key(seed) {
        Ok(k) => k,
        Err(e) => {
            return Err(e);
        },
    };
    let steps = fixed_pipeline();
    proof {
        assert(enc_len_ok(pt@.len() as int, steps@.len() as int));
        assert forall|i: int|
            0 <= i < spec_pipeline().len() implies aad_len_ok(#[trigger] spec_pipeline()[i]) by {
            if i == 0 {
                assert(spec_pipeline()[0] is Ratchet);
            } else if i == 1 {
                assert(aad_adap().len() == 4);
            } else {
                assert(aad_evolve().len() == 6);
            }
        }
        assert(aads_ok(views_of(steps@)));
    }
    let walked = encrypt_walk(&key, pt, &steps);
    let id = u64_to_hex(random_u64());
    let bundle = Bundle { id, steps: walked.0, data: walked.1 };
    proof {
        assert(aead_count(spec_pipeline(), 0) == 0);
        assert(aead_count(spec_pipeline(), 1) == 0);
        assert(aead_count(spec_pipeline(), 2) == 1);
        assert(aead_count(spec_pipeline(), 3) == 2);
    }
    Ok(bundle)
}

/// Decrypt invocation: normalizes the seed into the initial key and
/// replays the bundle's records against the fixed pipeline, inverting each
/// AEAD stage with its recorded nonce and associated data.  A seed that
/// does not parse fails first; after that the reverse walk's full contract
/// applies.
pub fn decrypt(seed: &Vec<u8>, bundle: &Bundle) -> (r: Result<Vec<u8>, CipherError>)
    requires
        bundle.data@.len() < 0x8_0000_0100,
    ensures
        !seed_ok(seed@) ==> (r matches Err(e) && e == CipherError::SeedDecodeError),
        seed_ok(seed@) ==> decrypt_post(
            spec_seed_key(seed@),
            bundle.steps@,
            bundle.data@,
            spec_pipeline(),
            res_view(r),
        ),
{
    let key = match seed_key(seed) {
        Ok(k) => k,
        Err(e) => {
            return Err(e);
        },
    };
    let steps = fixed_pipeline();
    let data = copy_bytes(&bundle.data);
    decrypt_walk(&key, &bundle.steps, data, &steps)
}

} // verus!
