use vstd::prelude::*;

use crate::bytes::{copy_bytes, spec_be_bytes, u64_to_be_bytes};
use crate::errors::CipherError;
use crate::outside::{
    aes_gcm_ct, aesgcm_decrypt, aesgcm_encrypt, chacha_ct, chacha_decrypt, chacha_encrypt,
    fresh_nonce,
};
use crate::ratchet::{rolling_key, spec_derive};

verus! {

/// Which authenticated-encryption backend an AEAD step uses.  The two are
/// interchangeable behind the same contract: 32-byte key, 12-byte nonce,
/// tag embedded in the ciphertext.
#[derive(Clone, Copy, Debug, PartialEq, Eq, Structural)]
pub enum Backend {
    AesGcm,
    ChaCha20Poly1305,
}

/// A step descriptor.  The pipeline is an ordered list of these, fixed at
/// build time; the walk logic is independent of the concrete list.
#[derive(Clone, Debug)]
pub enum Step {
    /// Advance the ratchet: derive the next working key, bump the counter.
    Ratchet,
    /// Authenticated-encrypt the payload under the key in effect, binding
    /// the given associated data.
    Aead { backend: Backend, aad: Vec<u8> },
}

/// The mathematical shape of a step descriptor.
pub enum StepView {
    Ratchet,
    Aead { backend: Backend, aad: Seq<u8> },
}

impl View for Step {
    type V = StepView;

    open spec fn view(&self) -> StepView {
        match self {
            Step::Ratchet => StepView::Ratchet,
            Step::Aead { backend, aad } => StepView::Aead { backend: *backend, aad: aad@ },
        }
    }
}

pub open spec fn views_of(steps: Seq<Step>) -> Seq<StepView> {
    steps.map(|i: int, s: Step| s@)
}

/// The tag a recorded step carries.
#[derive(Clone, Copy, Debug, PartialEq, Eq, Structural)]
pub enum OpTag {
    RollingKey,
    AesGcmEnc,
    ChaChaEnc,
}

pub open spec fn backend_tag(b: Backend) -> OpTag {
    match b {
        Backend::AesGcm => OpTag::AesGcmEnc,
        Backend::ChaCha20Poly1305 => OpTag::ChaChaEnc,
    }
}

pub fn backend_tag_of(b: Backend) -> (r: OpTag)
    ensures
        r == backend_tag(b),
{
    match b {
        Backend::AesGcm => OpTag::AesGcmEnc,
        Backend::ChaCha20Poly1305 => OpTag::ChaChaEnc,
    }
}

/// One recorded step of an executed walk: the tag, and, for an AEAD step,
/// the nonce that was drawn and the associated data that was bound.
#[derive(Clone, Debug)]
pub struct StepRecord {
    pub op: OpTag,
    pub nonce: Option<Vec<u8>>,
    pub aad: Option<Vec<u8>>,
}

pub open spec fn opt_bytes(o: Option<Vec<u8>>) -> Seq<u8> {
    match o {
        Option::Some(v) => v@,
        Option::None => Seq::empty(),
    }
}

pub open spec fn spec_aead_ct(b: Backend, key: Seq<u8>, nonce: Seq<u8>, pt: Seq<u8>, aad: Seq<u8>) -> Seq<u8> {
    match b {
        Backend::AesGcm => aes_gcm_ct(key, nonce, pt, aad),
        Backend::ChaCha20Poly1305 => chacha_ct(key, nonce, pt, aad),
    }
}

/// The ratchet state (key, counter) in effect after the first `i` steps.
/// Only ratchet steps advance it; the counter starts at `c0` and increases
/// by exactly one per ratchet step.
pub open spec fn walk_key(key0: Seq<u8>, c0: u64, steps: Seq<StepView>, i: int) -> (Seq<u8>, u64)
    decreases i,
{
    if i <= 0 {
        (key0, c0)
    } else {
        let prev = walk_key(key0, c0, steps, i - 1);
        if 0 <= i - 1 < steps.len() && steps[i - 1] is Ratchet {
            (spec_derive(prev.0, prev.1, spec_be_bytes(prev.1)), ((prev.1 + 1) as u64))
        } else {
            prev
        }
    }
}

/// The payload after the first `i` steps of a forward walk that began with
/// plaintext `pt`, using the nonce and associated data recorded for each
/// AEAD step.
pub open spec fn enc_data(
    key0: Seq<u8>,
    c0: u64,
    pt: Seq<u8>,
    steps: Seq<StepView>,
    recs: Seq<StepRecord>,
    i: int,
) -> Seq<u8>
    decreases i,
{
    if i <= 0 {
        pt
    } else {
        let d = enc_data(key0, c0, pt, steps, recs, i - 1);
        if 0 <= i - 1 < steps.len() {
            match steps[i - 1] {
                StepView::Ratchet => d,
                StepView::Aead { backend, aad: _ } => spec_aead_ct(
                    backend,
                    walk_key(key0, c0, steps, i - 1).0,
                    opt_bytes(recs[i - 1].nonce),
                    d,
                    opt_bytes(recs[i - 1].aad),
                ),
            }
        } else {
            d
        }
    }
}

/// Whether a recorded step fits the descriptor at its position: the tag
/// matches positionally, an AEAD record carries a 12-byte nonce and
/// associated data, and a ratchet record carries neither.
pub open spec fn rec_ok(r: StepRecord, s: StepView) -> bool {
    match s {
        StepView::Ratchet => r.op == OpTag::RollingKey && r.nonce is None && r.aad is None,
        StepView::Aead { backend, aad: _ } => r.op == backend_tag(backend) && r.nonce is Some
            && opt_bytes(r.nonce).len() == 12 && r.aad is Some,
    }
}

pub open spec fn recs_ok(recs: Seq<StepRecord>, steps: Seq<StepView>) -> bool {
    recs.len() == steps.len() && (forall|i: int| 0 <= i < steps.len() ==> rec_ok(recs[i], steps[i]))
}

/// The records fit the pipeline and the data is exactly the forward walk's
/// output for plaintext `pt` under the recorded nonces and associated
/// data.  This is what the forward walk establishes and what the reverse
/// walk accepts.
pub open spec fn decrypts_to(
    key0: Seq<u8>,
    recs: Seq<StepRecord>,
    data: Seq<u8>,
    steps: Seq<StepView>,
    pt: Seq<u8>,
) -> bool {
    recs_ok(recs, steps) && data == enc_data(key0, 1, pt, steps, recs, steps.len() as int)
}

/// An encrypt-time record also carries the descriptor's own associated
/// data verbatim.
pub open spec fn rec_from_step(r: StepRecord, s: StepView) -> bool {
    s matches StepView::Aead { backend: _, aad } ==> opt_bytes(r.aad) == aad
}

/// The machine bound under which a forward walk stays within the AEAD
/// constructions' limits: each AEAD step grows the payload by a 16-byte
/// tag.
pub open spec fn enc_len_ok(pt_len: int, n_steps: int) -> bool {
    0 <= pt_len && 0 <= n_steps && pt_len + 16 * n_steps < 0x8_0000_0000
}

/// Whether a step's associated data fits under the AEAD constructions'
/// own limit, below which neither backend can reject an encrypt call.
pub open spec fn aad_len_ok(s: StepView) -> bool {
    s matches StepView::Aead { backend: _, aad } ==> aad.len() < 0x8_0000_0000
}

pub open spec fn aads_ok(steps: Seq<StepView>) -> bool {
    forall|i: int| 0 <= i < steps.len() ==> aad_len_ok(#[trigger] steps[i])
}

/// How many of the first `i` steps are AEAD steps; each grows the
/// payload by a 16-byte tag.
pub open spec fn aead_count(steps: Seq<StepView>, i: int) -> int
    decreases i,
{
    if i <= 0 {
        0
    } else {
        aead_count(steps, i - 1) + (if 0 <= i - 1 < steps.len() && steps[i - 1] is Aead {
            1int
        } else {
            0int
        })
    }
}

pub open spec fn res_view(r: Result<Vec<u8>, CipherError>) -> Result<Seq<u8>, CipherError> {
    match r {
        Result::Ok(v) => Result::Ok(v@),
        Result::Err(e) => Result::Err(e),
    }
}

/// Everything the reverse walk promises of its result: any plaintext the
/// data decrypts to is returned exactly; a returned plaintext really does
/// encrypt to the data; records that do not fit the pipeline are rejected
/// as malformed before any cryptographic work; and an authentication
/// failure is reported precisely when well-shaped records carry data that
/// is the encryption of no plaintext at all.
pub open spec fn decrypt_post(
    key0: Seq<u8>,
    recs: Seq<StepRecord>,
    data: Seq<u8>,
    steps: Seq<StepView>,
    r: Result<Seq<u8>, CipherError>,
) -> bool {
    &&& forall|p: Seq<u8>|
        decrypts_to(key0, recs, data, steps, p) ==> r == Result::<Seq<u8>, CipherError>::Ok(p)
    &&& (r matches Result::Ok(v) ==> decrypts_to(key0, recs, data, steps, v))
    &&& (!recs_ok(recs, steps) ==> r == Result::<Seq<u8>, CipherError>::Err(
        CipherError::MalformedBundle,
    ))
    &&& (recs_ok(recs, steps) && r is Err ==> r == Result::<Seq<u8>, CipherError>::Err(
        CipherError::AuthenticationFailure,
    ) && !(exists|p: Seq<u8>| decrypts_to(key0, recs, data, steps, p)))
}

proof fn lemma_enc_data_push(
    key0: Seq<u8>,
    c0: u64,
    pt: Seq<u8>,
    steps: Seq<StepView>,
    recs: Seq<StepRecord>,
    x: StepRecord,
    i: int,
)
    requires
        0 <= i <= recs.len(),
    ensures
        enc_data(key0, c0, pt, steps, recs.push(x), i) == enc_data(key0, c0, pt, steps, recs, i),
    decreases i,
{
    if i > 0 {
        lemma_enc_data_push(key0, c0, pt, steps, recs, x, i - 1);
        assert(recs.push(x)[i - 1] == recs[i - 1]);
    }
}

/// The payload that results from applying steps `i` onwards to `x`, with
/// the keys the absolute walk provides.
pub open spec fn enc_suffix(
    key0: Seq<u8>,
    c0: u64,
    x: Seq<u8>,
    steps: Seq<StepView>,
    recs: Seq<StepRecord>,
    i: int,
) -> Seq<u8>
    decreases steps.len() - i,
{
    if i < 0 || i >= steps.len() {
        x
    } else {
        let y = match steps[i] {
            StepView::Ratchet => x,
            StepView::Aead { backend, aad: _ } => spec_aead_ct(
                backend,
                walk_key(key0, c0, steps, i).0,
                opt_bytes(recs[i].nonce),
                x,
                opt_bytes(recs[i].aad),
            ),
        };
        enc_suffix(key0, c0, y, steps, recs, i + 1)
    }
}

proof fn lemma_suffix_of_data(
    key0: Seq<u8>,
    c0: u64,
    pt: Seq<u8>,
    steps: Seq<StepView>,
    recs: Seq<StepRecord>,
    i: int,
)
    requires
        0 <= i <= steps.len(),
    ensures
        enc_suffix(key0, c0, enc_data(key0, c0, pt, steps, recs, i), steps, recs, i) == enc_data(
            key0,
            c0,
            pt,
            steps,
            recs,
            steps.len() as int,
        ),
    decreases steps.len() - i,
{
    if i < steps.len() {
        lemma_suffix_of_data(key0, c0, pt, steps, recs, i + 1);
        let d = enc_data(key0, c0, pt, steps, recs, i);
        let d1 = enc_data(key0, c0, pt, steps, recs, i + 1);
        match steps[i] {
            StepView::Ratchet => {
                assert(d1 == d);
            }
            StepView::Aead { backend, aad: _ } => {
                assert(d1 == spec_aead_ct(
                    backend,
                    walk_key(key0, c0, steps, i).0,
                    opt_bytes(recs[i].nonce),
                    d,
                    opt_bytes(recs[i].aad),
                ));
            }
        }
    }
}

/// Forward (encrypt) walk: iterates the step list in order, carrying
/// (key, data, counter), and returns the records and the final payload.
/// Whatever nonces were drawn, the output decrypts back to `pt`, and each
/// AEAD record carries its descriptor's associated data.
pub fn encrypt_walk(key0: &Vec<u8>, pt: Vec<u8>, steps: &Vec<Step>) -> (r: (
    Vec<StepRecord>,
    Vec<u8>,
))
    requires
        key0@.len() == 32,
        enc_len_ok(pt@.len() as int, steps@.len() as int),
        aads_ok(views_of(steps@)),
    ensures
        decrypts_to(key0@, r.0@, r.1@, views_of(steps@), pt@),
        forall|i: int| 0 <= i < steps@.len() ==> rec_from_step(r.0@[i], views_of(steps@)[i]),
        r.1@.len() == pt@.len() + 16 * aead_count(views_of(steps@), steps@.len() as int),
{
    let ghost sv = views_of(steps@);
    let mut key: Vec<u8> = copy_bytes(key0);
    let mut counter: u64 = 1;
    let mut data: Vec<u8> = pt;
    let ghost pt0 = data@;
    let mut recs: Vec<StepRecord> = Vec::new();
    let mut i: usize = 0;
    while i < steps.len()
        invariant
            sv == views_of(steps@),
            sv.len() == steps@.len(),
            i <= steps@.len(),
            key0@.len() == 32,
            enc_len_ok(pt0.len() as int, steps@.len() as int),
            aads_ok(sv),
            recs@.len() == i,
            key@ == walk_key(key0@, 1, sv, i as int).0,
            key@.len() == 32,
            counter == walk_key(key0@, 1, sv, i as int).1,
            counter <= 1 + i,
            data@ == enc_data(key0@, 1, pt0, sv, recs@, i as int),
            aead_count(sv, i as int) <= i,
            data@.len() == pt0.len() + 16 * aead_count(sv, i as int),
            forall|j: int| 0 <= j < i ==> rec_ok(recs@[j], sv[j]) && rec_from_step(recs@[j], sv[j]),
        decreases steps@.len() - i,
    {
        proof {
            assert(sv[i as int] == steps@[i as int]@);
        }
        match &steps[i] {
            Step::Ratchet => {
                let extra = u64_to_be_bytes(counter);
                let next = rolling_key(&key, counter, &extra);
                key = next;
                counter = counter + 1;
                let rec = StepRecord { op: OpTag::RollingKey, nonce: None, aad: None };
                proof {
                    lemma_enc_data_push(key0@, 1, pt0, sv, recs@, rec, i as int);
                }
                recs.push(rec);
            }
            Step::Aead { backend, aad } => {
                let nonce = fresh_nonce();
                let aad_rec = copy_bytes(aad);
                let ct = match backend {
                    Backend::AesGcm => aesgcm_encrypt(&key, &nonce, &data, aad),
                    Backend::ChaCha20Poly1305 => chacha_encrypt(&key, &nonce, &data, aad),
                };
                data = ct;
                let tag = backend_tag_of(*backend);
                let rec = StepRecord { op: tag, nonce: Some(nonce), aad: Some(aad_rec) };
                proof {
                    lemma_enc_data_push(key0@, 1, pt0, sv, recs@, rec, i as int);
                }
                recs.push(rec);
            }
        }
        i = i + 1;
    }
    (recs, data)
}

/// Reverse (decrypt) walk: validates the records against the step list
/// before any cryptographic work, re-derives the key sequence by replaying
/// the recorded counter progression, then inverts the AEAD stages in
/// reverse composition order using the recorded nonces and associated
/// data.  Replaying the stored order and substituting each AEAD step's
/// inverse in place would not invert a composition of two sequential AEAD
/// stages; the walk therefore traverses them last-to-first, which is what
/// makes the round-trip contract provable.
pub fn decrypt_walk(
    key0: &Vec<u8>,
    recs: &Vec<StepRecord>,
    data: Vec<u8>,
    steps: &Vec<Step>,
) -> (r: Result<Vec<u8>, CipherError>)
    requires
        key0@.len() == 32,
        steps@.len() < 0x8000_0000,
        data@.len() < 0x8_0000_0100,
    ensures
        decrypt_post(key0@, recs@, data@, views_of(steps@), res_view(r)),
{
    let ghost sv = views_of(steps@);
    let ghost data0 = data@;
    if recs.len() != steps.len() {
        proof {
            assert(!recs_ok(recs@, sv));
        }
        return Err(CipherError::MalformedBundle);
    }
    let mut i: usize = 0;
    while i < steps.len()
        invariant
            sv == views_of(steps@),
            sv.len() == steps@.len(),
            recs@.len() == steps@.len(),
            i <= steps@.len(),
            forall|j: int| 0 <= j < i ==> rec_ok(recs@[j], sv[j]),
        decreases steps@.len() - i,
    {
        proof {
            assert(sv[i as int] == steps@[i as int]@);
        }
        let ok: bool = match &steps[i] {
            Step::Ratchet => {
                recs[i].op == OpTag::RollingKey && recs[i].nonce.is_none()
                    && recs[i].aad.is_none()
            }
            Step::Aead { backend, aad: _ } => {
                let nonce_ok = match recs[i].nonce.as_ref() {
                    Some(n) => n.len() == 12,
                    None => false,
                };
                recs[i].op == backend_tag_of(*backend) && nonce_ok && recs[i].aad.is_some()
            }
        };
        if !ok {
            proof {
                assert(!rec_ok(recs@[i as int], sv[i as int]));
                assert(!recs_ok(recs@, sv));
            }
            return Err(CipherError::MalformedBundle);
        }
        i = i + 1;
    }
    proof {
        assert(recs_ok(recs@, sv));
    }
    // Replay the counter progression to recover the key in effect at each
    // step.
    let mut keys: Vec<Vec<u8>> = Vec::new();
    let mut key: Vec<u8> = copy_bytes(key0);
    let mut counter: u64 = 1;
    let mut i: usize = 0;
    while i < steps.len()
        invariant
            sv == views_of(steps@),
            sv.len() == steps@.len(),
            i <= steps@.len(),
            steps@.len() < 0x8000_0000,
            key0@.len() == 32,
            keys@.len() == i,
            forall|j: int|
                0 <= j < i ==> keys@[j]@ == walk_key(key0@, 1, sv, j).0 && keys@[j]@.len() == 32,
            key@ == walk_key(key0@, 1, sv, i as int).0,
            key@.len() == 32,
            counter == walk_key(key0@, 1, sv, i as int).1,
            counter <= 1 + i,
        decreases steps@.len() - i,
    {
        proof {
            assert(sv[i as int] == steps@[i as int]@);
        }
        let cur_key = copy_bytes(&key);
        keys.push(cur_key);
        match &steps[i] {
            Step::Ratchet => {
                let extra = u64_to_be_bytes(counter);
                let next = rolling_key(&key, counter, &extra);
                key = next;
                counter = counter + 1;
            }
            Step::Aead { .. } => {},
        }
        i = i + 1;
    }
    // Invert the stages in reverse composition order.
    let mut cur: Vec<u8> = data;
    let mut i: usize = steps.len();
    while i > 0
        invariant
            sv == views_of(steps@),
            sv.len() == steps@.len(),
            i <= steps@.len(),
            key0@.len() == 32,
            recs_ok(recs@, sv),
            keys@.len() == steps@.len(),
            forall|j: int|
                0 <= j < steps@.len() ==> keys@[j]@ == walk_key(key0@, 1, sv, j).0
                    && keys@[j]@.len() == 32,
            cur@.len() <= data0.len(),
            data0.len() < 0x8_0000_0100,
            data0 == data@,
            forall|p: Seq<u8>|
                #![trigger enc_data(key0@, 1, p, sv, recs@, sv.len() as int)]
                data0 == enc_data(key0@, 1, p, sv, recs@, sv.len() as int) ==> cur@ == enc_data(
                    key0@,
                    1,
                    p,
                    sv,
                    recs@,
                    i as int,
                ),
            data0 == enc_suffix(key0@, 1, cur@, sv, recs@, i as int),
        decreases i,
    {
        let idx = i - 1;
        proof {
            assert(sv[idx as int] == steps@[idx as int]@);
        }
        match &steps[idx] {
            Step::Ratchet => {
                proof {
                    assert forall|p: Seq<u8>|
                        data0 == enc_data(
                            key0@,
                            1,
                            p,
                            sv,
                            recs@,
                            sv.len() as int,
                        ) implies cur@ == enc_data(key0@, 1, p, sv, recs@, idx as int) by {
                        assert(cur@ == enc_data(key0@, 1, p, sv, recs@, i as int));
                        assert(enc_data(key0@, 1, p, sv, recs@, i as int) == enc_data(
                            key0@,
                            1,
                            p,
                            sv,
                            recs@,
                            idx as int,
                        ));
                    }
                    assert(enc_suffix(key0@, 1, cur@, sv, recs@, idx as int) == enc_suffix(
                        key0@,
                        1,
                        cur@,
                        sv,
                        recs@,
                        i as int,
                    ));
                }
            }
            Step::Aead { backend, aad: _ } => {
                let n: &Vec<u8> = recs[idx].nonce.as_ref().unwrap();
                let a: &Vec<u8> = recs[idx].aad.as_ref().unwrap();
                let ghost k = walk_key(key0@, 1, sv, idx as int).0;
                proof {
                    assert(rec_ok(recs@[idx as int], sv[idx as int]));
                    assert(n@ == opt_bytes(recs@[idx as int].nonce));
                    assert(a@ == opt_bytes(recs@[idx as int].aad));
                    assert(keys@[idx as int]@ == k);
                }
                let opened: Option<Vec<u8>> = match backend {
                    Backend::AesGcm => aesgcm_decrypt(&keys[idx], n, &cur, a),
                    Backend::ChaCha20Poly1305 => chacha_decrypt(&keys[idx], n, &cur, a),
                };
                match opened {
                    Some(v) => {
                        proof {
                            assert(cur@ == spec_aead_ct(*backend, k, n@, v@, a@));
                            assert(enc_suffix(key0@, 1, v@, sv, recs@, idx as int) == enc_suffix(
                                key0@,
                                1,
                                cur@,
                                sv,
                                recs@,
                                i as int,
                            ));
                            assert forall|p: Seq<u8>|
                                data0 == enc_data(
                                    key0@,
                                    1,
                                    p,
                                    sv,
                                    recs@,
                                    sv.len() as int,
                                ) implies v@ == enc_data(key0@, 1, p, sv, recs@, idx as int) by {
                                assert(cur@ == enc_data(key0@, 1, p, sv, recs@, i as int));
                                assert(enc_data(key0@, 1, p, sv, recs@, i as int) == spec_aead_ct(
                                    *backend,
                                    k,
                                    n@,
                                    enc_data(key0@, 1, p, sv, recs@, idx as int),
                                    a@,
                                ));
                            }
                        }
                        cur = v;
                    }
                    None => {
                        proof {
                            assert forall|p: Seq<u8>|
                                !decrypts_to(key0@, recs@, data@, views_of(steps@), p) by {
                                if decrypts_to(key0@, recs@, data0, sv, p) {
                                    assert(cur@ == enc_data(key0@, 1, p, sv, recs@, i as int));
                                    assert(enc_data(key0@, 1, p, sv, recs@, i as int)
                                        == spec_aead_ct(
                                        *backend,
                                        k,
                                        n@,
                                        enc_data(key0@, 1, p, sv, recs@, idx as int),
                                        a@,
                                    ));
                                    assert(false);
                                }
                            }
                        }
                        return Err(CipherError::AuthenticationFailure);
                    }
                }
            }
        }
        i = idx;
    }
    proof {
        lemma_suffix_of_data(key0@, 1, cur@, sv, recs@, 0);
        assert(enc_data(key0@, 1, cur@, sv, recs@, 0) == cur@);
        assert(decrypts_to(key0@, recs@, data0, sv, cur@));
        assert forall|p: Seq<u8>|
            decrypts_to(key0@, recs@, data0, sv, p) implies cur@ == p by {
            assert(cur@ == enc_data(key0@, 1, p, sv, recs@, 0));
        }
    }
    Ok(cur)
}

/// Round trip: whatever the reverse walk returns for a bundle that the
/// forward walk produced from plaintext `pt`, it is `Ok` and carries
/// exactly `pt`.
pub proof fn lemma_round_trip(
    key0: Seq<u8>,
    recs: Seq<StepRecord>,
    data: Seq<u8>,
    steps: Seq<StepView>,
    pt: Seq<u8>,
    r: Result<Seq<u8>, CipherError>,
)
    requires
        decrypts_to(key0, recs, data, steps, pt),
        decrypt_post(key0, recs, data, steps, r),
    ensures
        r == Result::<Seq<u8>, CipherError>::Ok(pt),
{
}

/// Tamper detection: when well-shaped records carry data that is the
/// encryption of no plaintext at all, the reverse walk reports an
/// authentication failure and never returns a plaintext.
pub proof fn lemma_tamper_detected(
    key0: Seq<u8>,
    recs: Seq<StepRecord>,
    data: Seq<u8>,
    steps: Seq<StepView>,
    r: Result<Seq<u8>, CipherError>,
)
    requires
        recs_ok(recs, steps),
        forall|p: Seq<u8>|
            #![trigger enc_data(key0, 1, p, steps, recs, steps.len() as int)]
            data != enc_data(key0, 1, p, steps, recs, steps.len() as int),
        decrypt_post(key0, recs, data, steps, r),
    ensures
        r == Result::<Seq<u8>, CipherError>::Err(CipherError::AuthenticationFailure),
{
    match r {
        Result::Ok(v) => {
            assert(data == enc_data(key0, 1, v, steps, recs, steps.len() as int));
            assert(false);
        },
        Result::Err(_) => {},
    }
}

/// Step mismatch: records whose length or tag sequence does not fit the
/// pipeline are rejected as malformed, before any cryptographic work.
pub proof fn lemma_shape_mismatch(
    key0: Seq<u8>,
    recs: Seq<StepRecord>,
    data: Seq<u8>,
    steps: Seq<StepView>,
    r: Result<Seq<u8>, CipherError>,
)
    requires
        !recs_ok(recs, steps),
        decrypt_post(key0, recs, data, steps, r),
    ensures
        r == Result::<Seq<u8>, CipherError>::Err(CipherError::MalformedBundle),
{
}

/// The associated data bound by the pipeline's AES-GCM stage.
pub open spec fn aad_adap() -> Seq<u8> {
    seq![97u8, 100u8, 97u8, 112u8]
}

/// The associated data bound by the pipeline's ChaCha20-Poly1305 stage.
pub open spec fn aad_evolve() -> Seq<u8> {
    seq![101u8, 118u8, 111u8, 108u8, 118u8, 101u8]
}

/// The concrete pipeline baked in at generation time: advance the ratchet,
/// AES-GCM bound to "adap", then ChaCha20-Poly1305 bound to "evolve".
pub open spec fn spec_pipeline() -> Seq<StepView> {
    seq![
        StepView::Ratchet,
        StepView::Aead { backend: Backend::AesGcm, aad: aad_adap() },
        StepView::Aead { backend: Backend::ChaCha20Poly1305, aad: aad_evolve() },
    ]
}

pub fn fixed_pipeline() -> (r: Vec<Step>)
    ensures
        views_of(r@) == spec_pipeline(),
        r@.len() == 3,
{
    let mut a1: Vec<u8> = Vec::new();
    a1.push(97);
    a1.push(100);
    a1.push(97);
    a1.push(112);
    let ghost g1 = a1@;
    let mut a2: Vec<u8> = Vec::new();
    a2.push(101);
    a2.push(118);
    a2.push(111);
    a2.push(108);
    a2.push(118);
    a2.push(101);
    let ghost g2 = a2@;
    let mut v: Vec<Step> = Vec::new();
    v.push(Step::Ratchet);
    v.push(Step::Aead { backend: Backend::AesGcm, aad: a1 });
    v.push(Step::Aead { backend: Backend::ChaCha20Poly1305, aad: a2 });
    proof {
        assert(g1 =~= aad_adap());
        assert(g2 =~= aad_evolve());
        assert(views_of(v@)[0] == v@[0]@);
        assert(views_of(v@)[1] == v@[1]@);
        assert(views_of(v@)[2] == v@[2]@);
        assert(views_of(v@) =~= spec_pipeline());
    }
    v
}

} // verus!
