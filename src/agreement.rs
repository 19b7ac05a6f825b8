use vstd::prelude::*;
use vstd::string::StringSliceAdditionalSpecFns;
use crate::error::VaultError;
use crate::keys::{generate_keypair, is_canonical_scalar, public_of, signature_valid, valid_private, verify_signed_prekey, KEY_LEN, SIGNATURE_LEN};
use crate::kem::{check_kem_public, kem_public_well_formed, kem_ciphertext_of, kem_decaps_of, kem_public_of, kem_secret_of, pq_decapsulate, pq_encapsulate_with, PQ_CIPHERTEXT_LEN, PQ_PRIVATE_LEN, PQ_PUBLIC_LEN, PQ_SEED_LEN};
use crate::primitives::{all_zero, append_bytes, bytes_equal, derive_key, hkdf_of, random_bytes, secure_zero, slice_to_vec};

verus! {

/// Length of the hybrid shared secret and of the initial root key.
pub const SESSION_KEY_LEN: usize = 32;

/// Context label of the agreement's key derivation.
pub const AGREEMENT_LABEL: &'static str = "VaultMessenger-hybrid-agreement";

/// `pk` decodes to a curve point.
pub uninterp spec fn point_valid(pk: Seq<u8>) -> bool;

/// The compressed encoding of scalar `sk` times the point encoded by `pk`.
pub uninterp spec fn dh_of(sk: Seq<u8>, pk: Seq<u8>) -> Seq<u8>;

/// The encoding of the neutral point.
pub open spec fn identity_point() -> Seq<u8> {
    Seq::new(32, |i: int| if i == 0 { 1u8 } else { 0u8 })
}

/// What `diffie_hellman` returns.
pub open spec fn dh_spec(sk: Seq<u8>, pk: Seq<u8>) -> Result<Seq<u8>, VaultError> {
    if sk.len() != KEY_LEN || pk.len() != KEY_LEN {
        Err(VaultError::InvalidArgument)
    } else if !is_canonical_scalar(sk) || !point_valid(pk) || dh_of(sk, pk) == identity_point() {
        Err(VaultError::EncodingInvalid)
    } else {
        Ok(dh_of(sk, pk))
    }
}

/// The optional fourth agreement, made from the initiator's side.
pub open spec fn dh_with_optional_public(sk: Seq<u8>, pk: Option<Seq<u8>>) -> Result<Seq<u8>, VaultError> {
    match pk {
        None => Ok(Seq::empty()),
        Some(p) => dh_spec(sk, p),
    }
}

/// The optional fourth agreement, made from the responder's side.
pub open spec fn dh_with_optional_private(sk: Option<Seq<u8>>, pk: Seq<u8>) -> Result<Seq<u8>, VaultError> {
    match sk {
        None => Ok(Seq::empty()),
        Some(s) => dh_spec(s, pk),
    }
}

/// The shared secret and the root key derived from an agreement transcript.
pub open spec fn secrets_of(transcript: Seq<u8>) -> (Seq<u8>, Seq<u8>) {
    let okm = hkdf_of(transcript, Seq::empty(), AGREEMENT_LABEL.spec_bytes(), 2 * SESSION_KEY_LEN as nat);
    (okm.subrange(0, SESSION_KEY_LEN as int), okm.subrange(SESSION_KEY_LEN as int, 2 * SESSION_KEY_LEN as int))
}

/// The four agreements in order, then the post-quantum secret, through the
/// key derivation; the first failing agreement decides the error.
pub open spec fn combine_spec(
    a: Result<Seq<u8>, VaultError>,
    b: Result<Seq<u8>, VaultError>,
    c: Result<Seq<u8>, VaultError>,
    d: Result<Seq<u8>, VaultError>,
    pq: Seq<u8>,
) -> Result<(Seq<u8>, Seq<u8>), VaultError> {
    match a {
        Err(e) => Err(e),
        Ok(x1) => match b {
            Err(e) => Err(e),
            Ok(x2) => match c {
                Err(e) => Err(e),
                Ok(x3) => match d {
                    Err(e) => Err(e),
                    Ok(x4) => Ok(secrets_of(x1 + x2 + x3 + x4 + pq)),
                },
            },
        },
    }
}

/// The initiator's outcome from its identity scalar `ika`, its ephemeral
/// scalar `e`, the responder's published keys and the encapsulated secret.
pub open spec fn initiate_spec(
    ika: Seq<u8>,
    e: Seq<u8>,
    ikb: Seq<u8>,
    spkb: Seq<u8>,
    sig: Seq<u8>,
    opkb: Option<Seq<u8>>,
    pq_secret: Seq<u8>,
) -> Result<(Seq<u8>, Seq<u8>), VaultError> {
    if ikb.len() != KEY_LEN || spkb.len() != KEY_LEN || sig.len() != SIGNATURE_LEN
        || (opkb is Some && opkb.unwrap().len() != KEY_LEN) {
        Err(VaultError::InvalidArgument)
    } else if !signature_valid(ikb, spkb, sig) {
        Err(VaultError::SignatureInvalid)
    } else {
        combine_spec(
            dh_spec(ika, spkb),
            dh_spec(e, ikb),
            dh_spec(e, spkb),
            dh_with_optional_public(e, opkb),
            pq_secret,
        )
    }
}

/// The responder's outcome from its private scalars, the initiator's identity
/// and ephemeral public keys and the decapsulated secret.
pub open spec fn respond_spec(
    ikb: Seq<u8>,
    spkb: Seq<u8>,
    opkb: Option<Seq<u8>>,
    ika_pub: Seq<u8>,
    e_pub: Seq<u8>,
    pq_secret: Seq<u8>,
) -> Result<(Seq<u8>, Seq<u8>), VaultError> {
    combine_spec(
        dh_spec(spkb, ika_pub),
        dh_spec(ikb, e_pub),
        dh_spec(spkb, e_pub),
        dh_with_optional_private(opkb, e_pub),
        pq_secret,
    )
}

/// What a responder publishes for initiators.
pub struct PreKeyBundle {
    pub identity_public: Vec<u8>,
    pub signed_prekey_public: Vec<u8>,
    pub signed_prekey_signature: Vec<u8>,
    pub one_time_prekey_public: Option<Vec<u8>>,
    pub pq_public: Vec<u8>,
}

/// The secrets one handshake yields.
pub struct SessionSecrets {
    pub shared_secret: Vec<u8>,
    pub root_key: Vec<u8>,
}

/// The initiator's secrets and what it sends to the responder.
pub struct InitiatorHandshake {
    pub secrets: SessionSecrets,
    pub ephemeral_public: Vec<u8>,
    pub pq_ciphertext: Vec<u8>,
}

/// The view of an optional byte vector.
pub open spec fn opt_bytes(o: Option<Vec<u8>>) -> Option<Seq<u8>> {
    match o {
        Some(v) => Some(v@),
        None => None,
    }
}

/// The view of a handshake's secrets.
pub open spec fn secrets_result(r: Result<SessionSecrets, VaultError>) -> Result<(Seq<u8>, Seq<u8>), VaultError> {
    match r {
        Ok(s) => Ok((s.shared_secret@, s.root_key@)),
        Err(e) => Err(e),
    }
}

/// The public keys of a bundle have the sizes the schemes fix.
pub open spec fn bundle_sized(b: PreKeyBundle) -> bool {
    b.identity_public@.len() == KEY_LEN && b.signed_prekey_public@.len() == KEY_LEN
        && b.signed_prekey_signature@.len() == SIGNATURE_LEN && b.pq_public@.len() == PQ_PUBLIC_LEN
        && (b.one_time_prekey_public is Some ==> b.one_time_prekey_public.unwrap()@.len() == KEY_LEN)
}

/// Relies on Scalar::from_canonical_bytes, CompressedEdwardsY::decompress and
/// scalar-point multiplication followed by compress.
#[verifier::external_body]
fn edwards_dh(sk: &[u8], pk: &[u8]) -> (r: Option<Vec<u8>>)
    requires
        sk@.len() == KEY_LEN,
        pk@.len() == KEY_LEN,
    ensures
        r is Some <==> (is_canonical_scalar(sk@) && point_valid(pk@)),
        r is Some ==> r.unwrap()@ == dh_of(sk@, pk@) && r.unwrap()@.len() == KEY_LEN,
{
    let mut sb = [0u8; 32];
    sb.copy_from_slice(sk);
    let mut pb = [0u8; 32];
    pb.copy_from_slice(pk);
    let s: Option<curve25519_dalek::scalar::Scalar> =
        curve25519_dalek::scalar::Scalar::from_canonical_bytes(sb).into();
    let p = curve25519_dalek::edwards::CompressedEdwardsY(pb).decompress();
    match (s, p) {
        (Some(s), Some(p)) => Some((s * p).compress().to_bytes().to_vec()),
        _ => None,
    }
}

/// The encoding of the neutral point.
fn identity_point_bytes() -> (r: Vec<u8>)
    ensures
        r@ == identity_point(),
{
    let mut r: Vec<u8> = Vec::new();
    r.push(1u8);
    let mut i: usize = 1;
    while i < 32
        invariant
            1 <= i <= 32,
            r@.len() == i,
            r@[0] == 1u8,
            forall|j: int| 1 <= j < i ==> r@[j] == 0u8,
        decreases 32 - i,
    {
        r.push(0u8);
        i = i + 1;
    }
    assert(r@ =~= identity_point());
    r
}

/// Diffie-Hellman between the scalar `sk` and the point `pk`; a result at
/// the neutral point (a degenerate key) is refused.
pub fn diffie_hellman(sk: &[u8], pk: &[u8]) -> (r: Result<Vec<u8>, VaultError>)
    ensures
        crate::primitives::bytes_result(r) == dh_spec(sk@, pk@),
        r matches Ok(v) ==> v@.len() == KEY_LEN,
{
    if sk.len() != KEY_LEN || pk.len() != KEY_LEN {
        return Err(VaultError::InvalidArgument);
    }
    match edwards_dh(sk, pk) {
        None => Err(VaultError::EncodingInvalid),
        Some(mut v) => {
            let id = identity_point_bytes();
            if bytes_equal(v.as_slice(), id.as_slice()) {
                secure_zero(&mut v);
                Err(VaultError::EncodingInvalid)
            } else {
                Ok(v)
            }
        },
    }
}

/// Appends the agreement of `sk` and `pk` to the transcript, or erases the
/// transcript and reports the error.
fn absorb_dh(t: &mut Vec<u8>, sk: &[u8], pk: &[u8]) -> (r: Result<(), VaultError>)
    ensures
        dh_spec(sk@, pk@) matches Ok(x) ==> r is Ok && final(t)@ == old(t)@ + x
            && final(t)@.len() == old(t)@.len() + KEY_LEN,
        dh_spec(sk@, pk@) matches Err(e) ==> r == Err::<(), VaultError>(e) && all_zero(final(t)@),
{
    match diffie_hellman(sk, pk) {
        Ok(mut v) => {
            append_bytes(t, v.as_slice());
            secure_zero(&mut v);
            Ok(())
        },
        Err(e) => {
            secure_zero(t);
            Err(e)
        },
    }
}

/// The shared secret and root key from a non-empty transcript.
fn derive_session(t: &[u8]) -> (r: Result<SessionSecrets, VaultError>)
    requires
        t@.len() > 0,
    ensures
        secrets_result(r) == Ok::<(Seq<u8>, Seq<u8>), VaultError>(secrets_of(t@)),
{
    let empty: Vec<u8> = Vec::new();
    match derive_key(t, empty.as_slice(), AGREEMENT_LABEL.as_bytes(), 2 * SESSION_KEY_LEN) {
        Ok(mut okm) => {
            let shared_secret = slice_to_vec(okm.as_slice(), 0, SESSION_KEY_LEN);
            let root_key = slice_to_vec(okm.as_slice(), SESSION_KEY_LEN, 2 * SESSION_KEY_LEN);
            secure_zero(&mut okm);
            Ok(SessionSecrets { shared_secret, root_key })
        },
        Err(e) => Err(e),
    }
}

/// Runs the four agreements in order over a fresh transcript, then the key
/// derivation; the transcript is erased before returning.
fn run_agreement(
    s1: &[u8], p1: &[u8],
    s2: &[u8], p2: &[u8],
    s3: &[u8], p3: &[u8],
    s4: Option<&[u8]>, p4: Option<&[u8]>,
    pq_secret: &[u8],
) -> (r: Result<SessionSecrets, VaultError>)
    requires
        s4 is Some <==> p4 is Some,
    ensures
        secrets_result(r) == combine_spec(
            dh_spec(s1@, p1@),
            dh_spec(s2@, p2@),
            dh_spec(s3@, p3@),
            if s4 is Some { dh_spec(s4.unwrap()@, p4.unwrap()@) } else { Ok(Seq::empty()) },
            pq_secret@,
        ),
{
    let mut t: Vec<u8> = Vec::new();
    match absorb_dh(&mut t, s1, p1) {
        Ok(()) => {},
        Err(e) => return Err(e),
    }
    match absorb_dh(&mut t, s2, p2) {
        Ok(()) => {},
        Err(e) => return Err(e),
    }
    match absorb_dh(&mut t, s3, p3) {
        Ok(()) => {},
        Err(e) => return Err(e),
    }
    let ghost t3 = t@;
    match (s4, p4) {
        (Some(s), Some(p)) => {
            match absorb_dh(&mut t, s, p) {
                Ok(()) => {},
                Err(e) => return Err(e),
            }
        },
        _ => {
            assert(t3 + Seq::<u8>::empty() =~= t3);
        },
    }
    append_bytes(&mut t, pq_secret);
    let r = derive_session(t.as_slice());
    secure_zero(&mut t);
    r
}

/// The initiator's side of the handshake with its ephemeral scalar and the
/// encapsulated post-quantum secret given: checks the signed prekey against
/// the responder's identity key, then agrees and derives.
pub fn initiate_with(
    identity_private: &[u8],
    ephemeral_private: &[u8],
    bundle: &PreKeyBundle,
    pq_secret: &[u8],
) -> (r: Result<SessionSecrets, VaultError>)
    ensures
        secrets_result(r) == initiate_spec(
            identity_private@,
            ephemeral_private@,
            bundle.identity_public@,
            bundle.signed_prekey_public@,
            bundle.signed_prekey_signature@,
            opt_bytes(bundle.one_time_prekey_public),
            pq_secret@,
        ),
{
    let opk_bad = match &bundle.one_time_prekey_public {
        Some(o) => o.len() != KEY_LEN,
        None => false,
    };
    if bundle.identity_public.len() != KEY_LEN || bundle.signed_prekey_public.len() != KEY_LEN
        || bundle.signed_prekey_signature.len() != SIGNATURE_LEN || opk_bad {
        return Err(VaultError::InvalidArgument);
    }
    if !verify_signed_prekey(
        bundle.identity_public.as_slice(),
        bundle.signed_prekey_public.as_slice(),
        bundle.signed_prekey_signature.as_slice(),
    ) {
        return Err(VaultError::SignatureInvalid);
    }
    let (s4, p4) = match &bundle.one_time_prekey_public {
        Some(o) => (Some(ephemeral_private), Some(o.as_slice())),
        None => (None, None),
    };
    run_agreement(
        identity_private, bundle.signed_prekey_public.as_slice(),
        ephemeral_private, bundle.identity_public.as_slice(),
        ephemeral_private, bundle.signed_prekey_public.as_slice(),
        s4, p4,
        pq_secret,
    )
}

/// One outcome the initiator may reach with ephemeral scalar `e` and
/// encapsulation randomness `m`.
pub open spec fn initiator_outcome(identity_private: Seq<u8>, bundle: PreKeyBundle, e: Seq<u8>, m: Seq<u8>, h: InitiatorHandshake) -> bool {
    valid_private(e) && h.ephemeral_public@ == public_of(e)
        && h.pq_ciphertext@ == kem_ciphertext_of(bundle.pq_public@, m)
        && initiate_spec(
            identity_private,
            e,
            bundle.identity_public@,
            bundle.signed_prekey_public@,
            bundle.signed_prekey_signature@,
            opt_bytes(bundle.one_time_prekey_public),
            kem_secret_of(bundle.pq_public@, m),
        ) == Ok::<(Seq<u8>, Seq<u8>), VaultError>((h.secrets.shared_secret@, h.secrets.root_key@))
}

/// One failure the initiator may reach with ephemeral scalar `e` and
/// encapsulation randomness `m`.
pub open spec fn initiator_failure(identity_private: Seq<u8>, bundle: PreKeyBundle, e: Seq<u8>, m: Seq<u8>, err: VaultError) -> bool {
    valid_private(e) && initiate_spec(
        identity_private,
        e,
        bundle.identity_public@,
        bundle.signed_prekey_public@,
        bundle.signed_prekey_signature@,
        opt_bytes(bundle.one_time_prekey_public),
        kem_secret_of(bundle.pq_public@, m),
    ) == Err::<(Seq<u8>, Seq<u8>), VaultError>(err)
}

/// The initiator's side of the handshake: checks the bundle, then draws an
/// ephemeral key pair and encapsulation randomness. A bad signature aborts
/// before anything is drawn or derived.
pub fn initiate(identity_private: &[u8], bundle: &PreKeyBundle) -> (r: Result<InitiatorHandshake, VaultError>)
    ensures
        identity_private@.len() != KEY_LEN || !bundle_sized(*bundle) ==> r matches Err(VaultError::InvalidArgument),
        identity_private@.len() == KEY_LEN && bundle_sized(*bundle)
            && !signature_valid(bundle.identity_public@, bundle.signed_prekey_public@, bundle.signed_prekey_signature@)
            ==> r matches Err(VaultError::SignatureInvalid),
        identity_private@.len() == KEY_LEN && bundle_sized(*bundle)
            && signature_valid(bundle.identity_public@, bundle.signed_prekey_public@, bundle.signed_prekey_signature@)
            && !kem_public_well_formed(bundle.pq_public@) ==> r matches Err(VaultError::EncodingInvalid),
        r matches Ok(h) ==> exists|e: Seq<u8>, m: Seq<u8>| #[trigger] initiator_outcome(identity_private@, *bundle, e, m, h),
        r matches Err(err) ==> (identity_private@.len() == KEY_LEN && bundle_sized(*bundle)
            && signature_valid(bundle.identity_public@, bundle.signed_prekey_public@, bundle.signed_prekey_signature@)
            && kem_public_well_formed(bundle.pq_public@)
            ==> err == VaultError::RngFailure
                || exists|e: Seq<u8>, m: Seq<u8>| #[trigger] initiator_failure(identity_private@, *bundle, e, m, err)),
{
    let opk_bad = match &bundle.one_time_prekey_public {
        Some(o) => o.len() != KEY_LEN,
        None => false,
    };
    if identity_private.len() != KEY_LEN || bundle.identity_public.len() != KEY_LEN
        || bundle.signed_prekey_public.len() != KEY_LEN
        || bundle.signed_prekey_signature.len() != SIGNATURE_LEN || bundle.pq_public.len() != PQ_PUBLIC_LEN
        || opk_bad {
        return Err(VaultError::InvalidArgument);
    }
    if !verify_signed_prekey(
        bundle.identity_public.as_slice(),
        bundle.signed_prekey_public.as_slice(),
        bundle.signed_prekey_signature.as_slice(),
    ) {
        return Err(VaultError::SignatureInvalid);
    }
    if !check_kem_public(bundle.pq_public.as_slice()) {
        return Err(VaultError::EncodingInvalid);
    }
    let mut ephemeral = match generate_keypair() {
        Ok(kp) => kp,
        Err(e) => return Err(e),
    };
    let mut m = match random_bytes(PQ_SEED_LEN) {
        Ok(v) => v,
        Err(e) => {
            secure_zero(&mut ephemeral.private);
            return Err(e);
        },
    };
    let enc = pq_encapsulate_with(bundle.pq_public.as_slice(), m.as_slice());
    let ghost mm = m@;
    secure_zero(&mut m);
    let mut enc = match enc {
        Ok(x) => x,
        Err(e) => {
            secure_zero(&mut ephemeral.private);
            return Err(e);
        },
    };
    let r = initiate_with(identity_private, ephemeral.private.as_slice(), bundle, enc.shared_secret.as_slice());
    let ghost ee = ephemeral.private@;
    secure_zero(&mut ephemeral.private);
    secure_zero(&mut enc.shared_secret);
    match r {
        Ok(secrets) => {
            let h = InitiatorHandshake {
                secrets,
                ephemeral_public: ephemeral.public,
                pq_ciphertext: enc.ciphertext,
            };
            assert(initiator_outcome(identity_private@, *bundle, ee, mm, h));
            let r: Result<InitiatorHandshake, VaultError> = Ok(h);
            assert(r matches Ok(hh) && initiator_outcome(identity_private@, *bundle, ee, mm, hh));
            r
        },
        Err(e) => {
            assert(initiator_failure(identity_private@, *bundle, ee, mm, e));
            Err(e)
        },
    }
}

/// The responder's side of the handshake: decapsulates the post-quantum
/// secret and mirrors the initiator's agreements.
pub fn respond(
    identity_private: &[u8],
    signed_prekey_private: &[u8],
    one_time_prekey_private: Option<&[u8]>,
    pq_private: &[u8],
    initiator_identity_public: &[u8],
    ephemeral_public: &[u8],
    pq_ciphertext: &[u8],
) -> (r: Result<SessionSecrets, VaultError>)
    ensures
        pq_private@.len() != PQ_PRIVATE_LEN || pq_ciphertext@.len() != PQ_CIPHERTEXT_LEN
            ==> r matches Err(VaultError::InvalidArgument),
        pq_private@.len() == PQ_PRIVATE_LEN && pq_ciphertext@.len() == PQ_CIPHERTEXT_LEN
            ==> secrets_result(r) == respond_spec(
                identity_private@,
                signed_prekey_private@,
                match one_time_prekey_private { Some(o) => Some(o@), None => None },
                initiator_identity_public@,
                ephemeral_public@,
                kem_decaps_of(pq_private@, pq_ciphertext@),
            ),
{
    let mut pq_secret = match pq_decapsulate(pq_ciphertext, pq_private) {
        Ok(s) => s,
        Err(e) => return Err(e),
    };
    let (s4, p4) = match one_time_prekey_private {
        Some(o) => (Some(o), Some(ephemeral_public)),
        None => (None, None),
    };
    let r = run_agreement(
        signed_prekey_private, initiator_identity_public,
        identity_private, ephemeral_public,
        signed_prekey_private, ephemeral_public,
        s4, p4,
        pq_secret.as_slice(),
    );
    secure_zero(&mut pq_secret);
    r
}

/// Both sides of a handshake derive the same secrets from matching key
/// material: an initiator holding `ika` and ephemeral `e`, and a responder
/// holding `ikb`, `spkb`, optionally `opkb`, and the post-quantum key
/// `pq_private`, whose signed prekey verifies. It rests on the two facts the
/// primitives provide: Diffie-Hellman agreement is the same from either side,
/// and decapsulation recovers the encapsulated secret.
pub proof fn lemma_agreement_symmetric(
    ika: Seq<u8>,
    e: Seq<u8>,
    ikb: Seq<u8>,
    spkb: Seq<u8>,
    opkb: Option<Seq<u8>>,
    sig: Seq<u8>,
    pq_private: Seq<u8>,
    m: Seq<u8>,
)
    requires
        valid_private(ika) && public_of(ika).len() == KEY_LEN,
        valid_private(e) && public_of(e).len() == KEY_LEN,
        valid_private(ikb) && public_of(ikb).len() == KEY_LEN,
        valid_private(spkb) && public_of(spkb).len() == KEY_LEN,
        opkb is Some ==> valid_private(opkb.unwrap()) && public_of(opkb.unwrap()).len() == KEY_LEN,
        sig.len() == SIGNATURE_LEN,
        signature_valid(public_of(ikb), public_of(spkb), sig),
        forall|x: Seq<u8>, y: Seq<u8>| valid_private(x) && valid_private(y)
            ==> #[trigger] dh_spec(x, public_of(y)) == #[trigger] dh_spec(y, public_of(x)),
        kem_decaps_of(pq_private, kem_ciphertext_of(kem_public_of(pq_private), m))
            == kem_secret_of(kem_public_of(pq_private), m),
    ensures
        initiate_spec(
            ika,
            e,
            public_of(ikb),
            public_of(spkb),
            sig,
            match opkb { Some(o) => Some(public_of(o)), None => None },
            kem_secret_of(kem_public_of(pq_private), m),
        ) == respond_spec(
            ikb,
            spkb,
            opkb,
            public_of(ika),
            public_of(e),
            kem_decaps_of(pq_private, kem_ciphertext_of(kem_public_of(pq_private), m)),
        ),
{
    assert(dh_spec(ika, public_of(spkb)) == dh_spec(spkb, public_of(ika)));
    assert(dh_spec(e, public_of(ikb)) == dh_spec(ikb, public_of(e)));
    assert(dh_spec(e, public_of(spkb)) == dh_spec(spkb, public_of(e)));
    if opkb is Some {
        let o = opkb.unwrap();
        assert(dh_spec(e, public_of(o)) == dh_spec(o, public_of(e)));
    }
}

} // verus!
