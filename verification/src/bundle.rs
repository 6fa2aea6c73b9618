use vstd::prelude::*;

use crate::bytes::{bytes_eq, copy_bytes};
use crate::errors::CipherError;
use crate::outside::{b64_decode, b64_encode, b64_of};
use crate::pipeline::{
    decrypts_to, enc_data, opt_bytes, rec_ok, recs_ok, OpTag, StepRecord, StepView,
};

verus! {

/// A bundle in its working form: hex identifier, recorded steps, final
/// transformed bytes.  Created once per encrypt invocation, consumed once
/// per decrypt invocation.
#[derive(Clone, Debug)]
pub struct Bundle {
    pub id: Vec<u8>,
    pub steps: Vec<StepRecord>,
    pub data: Vec<u8>,
}

/// One step of the textual container: tag bytes, and base64 fields that
/// are present exactly when the step recorded them.
#[derive(Clone, Debug)]
pub struct WireStep {
    pub op: Vec<u8>,
    pub nonce_b64: Option<Vec<u8>>,
    pub aad_b64: Option<Vec<u8>>,
}

/// The textual container shape of a bundle, with every binary field
/// base64-encoded.  Turning this into and out of concrete container text
/// is the caller's business; the codec here fixes what the fields hold.
#[derive(Clone, Debug)]
pub struct WireBundle {
    pub id: Vec<u8>,
    pub steps: Vec<WireStep>,
    pub data_b64: Vec<u8>,
}

/// The tag bytes a recorded step is written with: "rolling_key",
/// "aesgcm_enc" or "chacha20poly1305_enc".
pub open spec fn tag_bytes(t: OpTag) -> Seq<u8> {
    match t {
        OpTag::RollingKey => seq![
            114u8,
            111u8,
            108u8,
            108u8,
            105u8,
            110u8,
            103u8,
            95u8,
            107u8,
            101u8,
            121u8,
        ],
        OpTag::AesGcmEnc => seq![97u8, 101u8, 115u8, 103u8, 99u8, 109u8, 95u8, 101u8, 110u8, 99u8],
        OpTag::ChaChaEnc => seq![
            99u8,
            104u8,
            97u8,
            99u8,
            104u8,
            97u8,
            50u8,
            48u8,
            112u8,
            111u8,
            108u8,
            121u8,
            49u8,
            51u8,
            48u8,
            53u8,
            95u8,
            101u8,
            110u8,
            99u8,
        ],
    }
}

pub fn tag_to_bytes(t: OpTag) -> (r: Vec<u8>)
    ensures
        r@ == tag_bytes(t),
{
    let mut v: Vec<u8> = Vec::new();
    match t {
        OpTag::RollingKey => {
            v.push(114);
            v.push(111);
            v.push(108);
            v.push(108);
            v.push(105);
            v.push(110);
            v.push(103);
            v.push(95);
            v.push(107);
            v.push(101);
            v.push(121);
        },
        OpTag::AesGcmEnc => {
            v.push(97);
            v.push(101);
            v.push(115);
            v.push(103);
            v.push(99);
            v.push(109);
            v.push(95);
            v.push(101);
            v.push(110);
            v.push(99);
        },
        OpTag::ChaChaEnc => {
            v.push(99);
            v.push(104);
            v.push(97);
            v.push(99);
            v.push(104);
            v.push(97);
            v.push(50);
            v.push(48);
            v.push(112);
            v.push(111);
            v.push(108);
            v.push(121);
            v.push(49);
            v.push(51);
            v.push(48);
            v.push(53);
            v.push(95);
            v.push(101);
            v.push(110);
            v.push(99);
        },
    }
    proof {
        assert(v@ =~= tag_bytes(t));
    }
    v
}

/// Whether some recognized step tag is written with these bytes.
pub open spec fn known_tag(s: Seq<u8>) -> bool {
    exists|t: OpTag| s == tag_bytes(t)
}

/// Recognizes a step tag; rejects exactly the byte strings that are no
/// recognized tag.
pub fn parse_tag(b: &Vec<u8>) -> (r: Option<OpTag>)
    ensures
        r matches Some(t) ==> b@ == tag_bytes(t),
        r is None ==> !known_tag(b@),
{
    let rk = tag_to_bytes(OpTag::RollingKey);
    if bytes_eq(b, &rk) {
        return Some(OpTag::RollingKey);
    }
    let ag = tag_to_bytes(OpTag::AesGcmEnc);
    if bytes_eq(b, &ag) {
        return Some(OpTag::AesGcmEnc);
    }
    let cc = tag_to_bytes(OpTag::ChaChaEnc);
    if bytes_eq(b, &cc) {
        return Some(OpTag::ChaChaEnc);
    }
    proof {
        assert forall|t: OpTag| b@ != tag_bytes(t) by {
            match t {
                OpTag::RollingKey => {},
                OpTag::AesGcmEnc => {},
                OpTag::ChaChaEnc => {},
            }
        }
    }
    None
}

/// Whether a wire step is the written form of a recorded step: the tag
/// matches, and each base64 field is present and encodes its bytes exactly
/// when the record carries them.
pub open spec fn wire_matches_rec(w: WireStep, r: StepRecord) -> bool {
    &&& w.op@ == tag_bytes(r.op)
    &&& match r.nonce {
        Option::Some(n) => w.nonce_b64 matches Option::Some(nb) && nb@ == b64_of(n@),
        Option::None => w.nonce_b64 is None,
    }
    &&& match r.aad {
        Option::Some(a) => w.aad_b64 matches Option::Some(ab) && ab@ == b64_of(a@),
        Option::None => w.aad_b64 is None,
    }
}

/// Whether a wire bundle is the written form of a bundle.
pub open spec fn wire_matches_bundle(w: WireBundle, b: Bundle) -> bool {
    &&& w.id@ == b.id@
    &&& w.data_b64@ == b64_of(b.data@)
    &&& w.steps@.len() == b.steps@.len()
    &&& forall|i: int| 0 <= i < w.steps@.len() ==> wire_matches_rec(w.steps@[i], b.steps@[i])
}

/// Two recorded steps that hold the same values, field for field.
pub open spec fn rec_view_eq(a: StepRecord, b: StepRecord) -> bool {
    &&& a.op == b.op
    &&& (a.nonce is Some <==> b.nonce is Some)
    &&& opt_bytes(a.nonce) == opt_bytes(b.nonce)
    &&& (a.aad is Some <==> b.aad is Some)
    &&& opt_bytes(a.aad) == opt_bytes(b.aad)
}

/// Two bundles that hold the same values, field for field.
pub open spec fn bundle_view_eq(a: Bundle, b: Bundle) -> bool {
    &&& a.id@ == b.id@
    &&& a.data@ == b.data@
    &&& a.steps@.len() == b.steps@.len()
    &&& forall|i: int| 0 <= i < a.steps@.len() ==> rec_view_eq(a.steps@[i], b.steps@[i])
}

/// The three step tags are written with pairwise different byte strings,
/// so the written tag determines the step.
pub proof fn lemma_tag_bytes_injective(t1: OpTag, t2: OpTag)
    requires
        tag_bytes(t1) == tag_bytes(t2),
    ensures
        t1 == t2,
{
    assert(tag_bytes(OpTag::RollingKey).len() == 11);
    assert(tag_bytes(OpTag::AesGcmEnc).len() == 10);
    assert(tag_bytes(OpTag::ChaChaEnc).len() == 20);
}

/// A wire step that is the written form of `r` is the written form of
/// nothing else.
pub open spec fn wire_pins_rec(ws: WireStep, r: StepRecord) -> bool {
    forall|r2: StepRecord| wire_matches_rec(ws, r2) ==> rec_view_eq(r, r2)
}

/// A wire bundle that is the written form of `b` is the written form of
/// nothing else.
pub open spec fn wire_pins_bundle(w: WireBundle, b: Bundle) -> bool {
    forall|b2: Bundle| wire_matches_bundle(w, b2) ==> bundle_view_eq(b, b2)
}

/// Serializes a bundle into its container shape.
pub fn encode_bundle(b: &Bundle) -> (w: WireBundle)
    ensures
        wire_matches_bundle(w, *b),
{
    let mut wsteps: Vec<WireStep> = Vec::new();
    let mut i: usize = 0;
    while i < b.steps.len()
        invariant
            i <= b.steps@.len(),
            wsteps@.len() == i,
            forall|j: int| 0 <= j < i ==> wire_matches_rec(wsteps@[j], b.steps@[j]),
        decreases b.steps@.len() - i,
    {
        let rec = &b.steps[i];
        let tag = tag_to_bytes(rec.op);
        let nonce_b64 = match rec.nonce.as_ref() {
            Some(n) => Some(b64_encode(n)),
            None => None,
        };
        let aad_b64 = match rec.aad.as_ref() {
            Some(a) => Some(b64_encode(a)),
            None => None,
        };
        wsteps.push(WireStep { op: tag, nonce_b64, aad_b64 });
        i = i + 1;
    }
    WireBundle { id: copy_bytes(&b.id), steps: wsteps, data_b64: b64_encode(&b.data) }
}

/// Whether some byte sequence base64-encodes to these bytes.
pub open spec fn b64_valid(s: Seq<u8>) -> bool {
    exists|x: Seq<u8>| s == b64_of(x)
}

/// Whether a wire step's base64 fields all decode.
pub open spec fn wire_fields_ok(s: WireStep) -> bool {
    &&& (s.nonce_b64 matches Option::Some(nb) ==> b64_valid(nb@))
    &&& (s.aad_b64 matches Option::Some(ab) ==> b64_valid(ab@))
}

pub open spec fn wire_step_ok(s: WireStep) -> bool {
    known_tag(s.op@) && wire_fields_ok(s)
}

/// Whether a wire bundle parses into a bundle.
pub open spec fn wire_ok(w: WireBundle) -> bool {
    &&& b64_valid(w.data_b64@)
    &&& forall|i: int| 0 <= i < w.steps@.len() ==> wire_step_ok(w.steps@[i])
}

/// Parses a bundle out of its container shape.  It succeeds exactly on
/// well-formed wire bundles; an absent optional field stays absent, never
/// becoming zero-length data.  An unparsable base64 field is a malformed
/// bundle; an unrecognized step tag is an unsupported step.
pub fn decode_bundle(w: &WireBundle) -> (r: Result<Bundle, CipherError>)
    ensures
        r is Ok <==> wire_ok(*w),
        r matches Ok(b) ==> wire_matches_bundle(*w, b),
        r matches Ok(b) ==> wire_pins_bundle(*w, b),
        r matches Err(e) ==> (e == CipherError::MalformedBundle || e
            == CipherError::UnsupportedStep),
        !b64_valid(w.data_b64@) ==> (r matches Err(e) && e == CipherError::MalformedBundle),
        (b64_valid(w.data_b64@) && (forall|i: int|
            0 <= i < w.steps@.len() ==> known_tag(w.steps@[i].op@)) && !wire_ok(*w)) ==> (r matches
            Err(e) && e == CipherError::MalformedBundle),
        (b64_valid(w.data_b64@) && (forall|i: int|
            0 <= i < w.steps@.len() ==> wire_fields_ok(w.steps@[i])) && !wire_ok(*w)) ==> (r matches
            Err(e) && e == CipherError::UnsupportedStep),
{
    let data = match b64_decode(&w.data_b64) {
        Some(v) => v,
        None => {
            return Err(CipherError::MalformedBundle);
        },
    };
    let mut steps: Vec<StepRecord> = Vec::new();
    let mut i: usize = 0;
    while i < w.steps.len()
        invariant
            b64_valid(w.data_b64@),
            i <= w.steps@.len(),
            steps@.len() == i,
            forall|j: int| 0 <= j < i ==> wire_step_ok(w.steps@[j]),
            forall|j: int| 0 <= j < i ==> wire_matches_rec(w.steps@[j], steps@[j]),
            forall|j: int| 0 <= j < i ==> wire_pins_rec(w.steps@[j], steps@[j]),
        decreases w.steps@.len() - i,
    {
        let ws = &w.steps[i];
        let tag = match parse_tag(&ws.op) {
            Some(t) => t,
            None => {
                return Err(CipherError::UnsupportedStep);
            },
        };
        let nonce = match ws.nonce_b64.as_ref() {
            Some(nb) => match b64_decode(nb) {
                Some(n) => Some(n),
                None => {
                    return Err(CipherError::MalformedBundle);
                },
            },
            None => None,
        };
        let aad = match ws.aad_b64.as_ref() {
            Some(ab) => match b64_decode(ab) {
                Some(a) => Some(a),
                None => {
                    return Err(CipherError::MalformedBundle);
                },
            },
            None => None,
        };
        let rec = StepRecord { op: tag, nonce, aad };
        proof {
            assert forall|r2: StepRecord|
                wire_matches_rec(w.steps@[i as int], r2) implies rec_view_eq(rec, r2) by {
                lemma_tag_bytes_injective(rec.op, r2.op);
            }
        }
        steps.push(rec);
        i = i + 1;
    }
    let out = Bundle { id: copy_bytes(&w.id), steps, data };
    proof {
        assert forall|b2: Bundle| wire_matches_bundle(*w, b2) implies bundle_view_eq(out, b2) by {
            assert forall|j: int|
                0 <= j < out.steps@.len() implies rec_view_eq(out.steps@[j], b2.steps@[j]) by {
                assert(wire_matches_rec(w.steps@[j], b2.steps@[j]));
                assert(wire_pins_rec(w.steps@[j], out.steps@[j]));
            }
        }
    }
    Ok(out)
}

/// The written form of any bundle parses back: every field a bundle was
/// written with is well-formed wire text.
pub proof fn lemma_encoded_wire_ok(w: WireBundle, b: Bundle)
    requires
        wire_matches_bundle(w, b),
    ensures
        wire_ok(w),
{
    assert(w.data_b64@ == b64_of(b.data@));
    assert forall|i: int| 0 <= i < w.steps@.len() implies wire_step_ok(w.steps@[i]) by {
        assert(wire_matches_rec(w.steps@[i], b.steps@[i]));
        let r = b.steps@[i];
        assert(w.steps@[i].op@ == tag_bytes(r.op));
        match r.nonce {
            Option::Some(n) => {
                assert(w.steps@[i].nonce_b64 matches Option::Some(nb) && nb@ == b64_of(n@));
            },
            Option::None => {},
        }
        match r.aad {
            Option::Some(a) => {
                assert(w.steps@[i].aad_b64 matches Option::Some(ab) && ab@ == b64_of(a@));
            },
            Option::None => {},
        }
    }
}

/// Codec round trip: parsing the written form of a bundle yields that
/// bundle back, field for field.
pub proof fn lemma_codec_round_trip(w: WireBundle, b0: Bundle, b1: Bundle)
    requires
        wire_matches_bundle(w, b0),
        wire_pins_bundle(w, b1),
    ensures
        bundle_view_eq(b1, b0),
{
}

proof fn lemma_enc_data_view_eq(
    key0: Seq<u8>,
    c0: u64,
    pt: Seq<u8>,
    steps: Seq<StepView>,
    recs1: Seq<StepRecord>,
    recs2: Seq<StepRecord>,
    i: int,
)
    requires
        recs1.len() == recs2.len(),
        i <= recs1.len(),
        forall|j: int| 0 <= j < recs1.len() ==> rec_view_eq(recs1[j], recs2[j]),
    ensures
        enc_data(key0, c0, pt, steps, recs1, i) == enc_data(key0, c0, pt, steps, recs2, i),
    decreases i,
{
    if i > 0 {
        lemma_enc_data_view_eq(key0, c0, pt, steps, recs1, recs2, i - 1);
        assert(rec_view_eq(recs1[i - 1], recs2[i - 1]));
        assert(opt_bytes(recs1[i - 1].nonce) == opt_bytes(recs2[i - 1].nonce));
        assert(opt_bytes(recs1[i - 1].aad) == opt_bytes(recs2[i - 1].aad));
    }
}

/// Wire round trip: a bundle that is written out and parsed back decrypts
/// to exactly the plaintexts the original does.
pub proof fn lemma_wire_round_trip(
    key0: Seq<u8>,
    w: WireBundle,
    b0: Bundle,
    b1: Bundle,
    steps: Seq<StepView>,
    pt: Seq<u8>,
)
    requires
        wire_matches_bundle(w, b0),
        wire_pins_bundle(w, b1),
        decrypts_to(key0, b0.steps@, b0.data@, steps, pt),
    ensures
        decrypts_to(key0, b1.steps@, b1.data@, steps, pt),
{
    lemma_codec_round_trip(w, b0, b1);
    assert forall|i: int| 0 <= i < steps.len() implies rec_ok(b1.steps@[i], steps[i]) by {
        assert(rec_ok(b0.steps@[i], steps[i]));
        assert(rec_view_eq(b1.steps@[i], b0.steps@[i]));
    }
    assert(recs_ok(b1.steps@, steps));
    lemma_enc_data_view_eq(key0, 1, pt, steps, b0.steps@, b1.steps@, steps.len() as int);
}

} // verus!
