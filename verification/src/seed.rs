use vstd::prelude::*;

use crate::bytes::{all_hex_digits, copy_bytes, hex_decode, spec_hex_bytes, tail_bytes};
use crate::errors::CipherError;

verus! {

/// Whether a seed literal announces a hex body: it starts with `0x` or
/// `0X`.
pub open spec fn has_hex_prefix(s: Seq<u8>) -> bool {
    s.len() >= 2 && s[0] == 48 && (s[1] == 120 || s[1] == 88)
}

/// Whether a seed literal parses: a hex-prefixed literal needs a hex body
/// of even length; any other literal is taken as raw bytes.
pub open spec fn seed_ok(s: Seq<u8>) -> bool {
    has_hex_prefix(s) ==> ((s.len() - 2) % 2 == 0 && all_hex_digits(s.skip(2)))
}

/// The raw bytes a seed literal stands for: the decoded hex body after a
/// `0x`/`0X` prefix, the literal's own bytes otherwise.
pub open spec fn spec_seed_bytes(s: Seq<u8>) -> Seq<u8> {
    if has_hex_prefix(s) {
        spec_hex_bytes(s.skip(2))
    } else {
        s
    }
}

/// Turns a seed literal into raw seed bytes.  A literal prefixed `0x` or
/// `0X` is hex-decoded; failure to hex-decode is fatal.
pub fn parse_seed(seed: &Vec<u8>) -> (r: Result<Vec<u8>, CipherError>)
    ensures
        r is Ok <==> seed_ok(seed@),
        r matches Ok(v) ==> v@ == spec_seed_bytes(seed@),
        r matches Err(e) ==> e == CipherError::SeedDecodeError,
{
    let prefixed = seed.len() >= 2 && seed[0] == 48 && (seed[1] == 120 || seed[1] == 88);
    if prefixed {
        let body = tail_bytes(seed, 2);
        match hex_decode(&body) {
            Some(v) => Ok(v),
            None => Err(CipherError::SeedDecodeError),
        }
    } else {
        Ok(copy_bytes(seed))
    }
}

/// The fixed-length initial key a raw seed normalizes to: truncated to 32
/// bytes when at least that long, zero-filled on the right when shorter.
pub open spec fn spec_normalize(s: Seq<u8>) -> Seq<u8> {
    if s.len() >= 32 {
        s.take(32)
    } else {
        s + Seq::new((32 - s.len()) as nat, |i: int| 0u8)
    }
}

pub fn normalize_seed(s: &Vec<u8>) -> (r: Vec<u8>)
    ensures
        r@ == spec_normalize(s@),
        r@.len() == 32,
{
    let mut key: Vec<u8> = Vec::new();
    let mut i: usize = 0;
    while i < 32
        invariant
            i <= 32,
            key@.len() == i,
            forall|j: int| 0 <= j < i ==> key@[j] == spec_normalize(s@)[j],
        decreases 32 - i,
    {
        if i < s.len() {
            key.push(s[i]);
        } else {
            key.push(0);
        }
        i = i + 1;
    }
    proof {
        assert(key@ =~= spec_normalize(s@));
    }
    key
}

/// The 32-byte initial key a seed literal stands for.
pub open spec fn spec_seed_key(s: Seq<u8>) -> Seq<u8> {
    spec_normalize(spec_seed_bytes(s))
}

/// Parses and normalizes a seed literal into the 32-byte initial key.
pub fn seed_key(seed: &Vec<u8>) -> (r: Result<Vec<u8>, CipherError>)
    ensures
        r is Ok <==> seed_ok(seed@),
        r matches Ok(v) ==> v@ == spec_seed_key(seed@) && v@.len() == 32,
        r matches Err(e) ==> e == CipherError::SeedDecodeError,
{
    match parse_seed(seed) {
        Ok(raw) => Ok(normalize_seed(&raw)),
        Err(e) => Err(e),
    }
}

/// A raw seed of exactly 32 bytes passes through normalization unchanged.
pub proof fn lemma_normalize_exact(s: Seq<u8>)
    requires
        s.len() == 32,
    ensures
        spec_normalize(s) == s,
{
    assert(spec_normalize(s) =~= s);
}

/// A raw seed shorter than 32 bytes is zero-padded on the right.
pub proof fn lemma_normalize_short(s: Seq<u8>)
    requires
        s.len() < 32,
    ensures
        spec_normalize(s).len() == 32,
        forall|i: int| 0 <= i < s.len() ==> spec_normalize(s)[i] == s[i],
        forall|i: int| s.len() <= i < 32 ==> spec_normalize(s)[i] == 0u8,
{
}

/// A raw seed longer than 32 bytes is truncated to its first 32.
pub proof fn lemma_normalize_long(s: Seq<u8>)
    requires
        s.len() > 32,
    ensures
        spec_normalize(s) == s.take(32),
{
}

} // verus!
