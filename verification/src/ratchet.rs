use vstd::prelude::*;

use crate::bytes::{copy_bytes, spec_be_bytes, u64_to_be_bytes};
use crate::outside::{sha3_512, sha3_512_of};

verus! {

/// The key that the ratchet derives from the current key, a counter and
/// auxiliary bytes: the first 32 bytes of the SHA3-512 digest of the
/// current key, the big-endian counter and the auxiliary bytes, in that
/// order.
pub open spec fn spec_derive(key: Seq<u8>, counter: u64, extra: Seq<u8>) -> Seq<u8> {
    sha3_512_of(key + spec_be_bytes(counter) + extra).take(32)
}

/// Key ratchet: derives the next working key.  Deterministic and
/// stateless; once advanced, the prior key is not recoverable.
pub fn rolling_key(cur: &Vec<u8>, counter: u64, extra: &Vec<u8>) -> (r: Vec<u8>)
    requires
        cur@.len() + 8 + extra@.len() <= usize::MAX,
    ensures
        r@ == spec_derive(cur@, counter, extra@),
        r@.len() == 32,
{
    let mut input = copy_bytes(cur);
    let mut be = u64_to_be_bytes(counter);
    input.append(&mut be);
    let mut tail = copy_bytes(extra);
    input.append(&mut tail);
    let digest = sha3_512(&input);
    let mut key: Vec<u8> = Vec::new();
    let mut i: usize = 0;
    while i < 32
        invariant
            i <= 32,
            digest@.len() == 64,
            key@ == digest@.subrange(0, i as int),
        decreases 32 - i,
    {
        key.push(digest[i]);
        proof {
            assert(key@ =~= digest@.subrange(0, i + 1));
        }
        i = i + 1;
    }
    proof {
        assert(input@ == cur@ + spec_be_bytes(counter) + extra@);
        assert(key@ =~= spec_derive(cur@, counter, extra@));
    }
    key
}

/// Determinism of the ratchet: the derived key is a function of the
/// current key, the counter and the auxiliary bytes alone, so a replay
/// with the same counter progression reproduces the same key sequence.
pub proof fn lemma_derive_deterministic(
    k1: Seq<u8>,
    c1: u64,
    e1: Seq<u8>,
    k2: Seq<u8>,
    c2: u64,
    e2: Seq<u8>,
)
    requires
        k1 == k2,
        c1 == c2,
        e1 == e2,
    ensures
        spec_derive(k1, c1, e1) == spec_derive(k2, c2, e2),
{
}

} // verus!
