use vstd::prelude::*;
use vstd::string::StringSliceAdditionalSpecFns;
use crate::error::VaultError;
use crate::agreement::point_valid;
use crate::keys::{le_value, scalar_bytes, generate_keypair, is_canonical_scalar, public_key_of, public_of, reduce_wide_of, scalar_from_wide, valid_private, KEY_LEN, WIDE_LEN};
use crate::primitives::{append_bytes, bytes_equal, derive_key, hkdf_of, secure_zero, slice_to_vec};

verus! {

/// Length of a proof: the commitment point, then the response scalar.
pub const PROOF_LEN: usize = 64;

/// Context label of the proof's challenge.
pub const PROOF_LABEL: &'static str = "VaultMessenger-identity-proof";

/// The encoding of the scalar `a * b + c` modulo the group order.
pub open spec fn mul_add_of(a: Seq<u8>, b: Seq<u8>, c: Seq<u8>) -> Seq<u8> {
    scalar_bytes(le_value(a) * le_value(b) + le_value(c))
}

/// The compressed encoding of `s` times the base point minus `c` times the
/// point `a`.
pub uninterp spec fn commitment_of(s: Seq<u8>, c: Seq<u8>, a: Seq<u8>) -> Seq<u8>;

/// The Fiat-Shamir challenge scalar for commitment `r`, public key `a` and
/// statement `stmt`.
pub open spec fn challenge_spec(r: Seq<u8>, a: Seq<u8>, stmt: Seq<u8>) -> Seq<u8> {
    reduce_wide_of(hkdf_of(r + a + stmt, Seq::empty(), PROOF_LABEL.spec_bytes(), WIDE_LEN as nat))
}

/// A proof for the private scalar `x` on `stmt` made with the nonce scalar `k`.
pub open spec fn proof_spec(x: Seq<u8>, k: Seq<u8>, stmt: Seq<u8>) -> Seq<u8> {
    public_of(k) + mul_add_of(challenge_spec(public_of(k), public_of(x), stmt), x, k)
}

/// Whether `proof` is accepted for the public key `a` and `stmt`.
pub open spec fn verify_spec(proof: Seq<u8>, a: Seq<u8>, stmt: Seq<u8>) -> bool {
    let r = proof.subrange(0, KEY_LEN as int);
    let s = proof.subrange(KEY_LEN as int, PROOF_LEN as int);
    proof.len() == PROOF_LEN && a.len() == KEY_LEN && is_canonical_scalar(s) && point_valid(a)
        && commitment_of(s, challenge_spec(r, a, stmt), a) == r
}

/// Relies on Scalar::from_canonical_bytes and Scalar's `*` and `+`: `a * b + c`
/// modulo the group order, for canonical inputs.
#[verifier::external_body]
fn scalar_mul_add(a: &[u8], b: &[u8], c: &[u8]) -> (r: Option<Vec<u8>>)
    requires
        a@.len() == KEY_LEN,
        b@.len() == KEY_LEN,
        c@.len() == KEY_LEN,
    ensures
        r is Some <==> (is_canonical_scalar(a@) && is_canonical_scalar(b@) && is_canonical_scalar(c@)),
        r is Some ==> r.unwrap()@ == mul_add_of(a@, b@, c@) && r.unwrap()@.len() == KEY_LEN,
{
    let x: Option<curve25519_dalek::scalar::Scalar> = curve25519_dalek::scalar::Scalar::from_canonical_bytes(a.try_into().ok()?).into();
    let y: Option<curve25519_dalek::scalar::Scalar> = curve25519_dalek::scalar::Scalar::from_canonical_bytes(b.try_into().ok()?).into();
    let z: Option<curve25519_dalek::scalar::Scalar> = curve25519_dalek::scalar::Scalar::from_canonical_bytes(c.try_into().ok()?).into();
    match (x, y, z) {
        (Some(x), Some(y), Some(z)) => Some((x * y + z).to_bytes().to_vec()),
        _ => None,
    }
}

/// Relies on CompressedEdwardsY::decompress and
/// EdwardsPoint::vartime_double_scalar_mul_basepoint: `s*B - c*A`, compressed.
#[verifier::external_body]
fn schnorr_commitment(s: &[u8], c: &[u8], a: &[u8]) -> (r: Option<Vec<u8>>)
    requires
        s@.len() == KEY_LEN,
        c@.len() == KEY_LEN,
        a@.len() == KEY_LEN,
        is_canonical_scalar(c@),
    ensures
        r is Some <==> (is_canonical_scalar(s@) && point_valid(a@)),
        r is Some ==> r.unwrap()@ == commitment_of(s@, c@, a@) && r.unwrap()@.len() == KEY_LEN,
{
    let s: Option<curve25519_dalek::scalar::Scalar> = curve25519_dalek::scalar::Scalar::from_canonical_bytes(s.try_into().ok()?).into();
    let c = curve25519_dalek::scalar::Scalar::from_bytes_mod_order(c.try_into().ok()?);
    let p = curve25519_dalek::edwards::CompressedEdwardsY(a.try_into().ok()?).decompress();
    match (s, p) {
        (Some(s), Some(p)) => Some(
            curve25519_dalek::edwards::EdwardsPoint::vartime_double_scalar_mul_basepoint(&(-c), &p, &s)
                .compress()
                .to_bytes()
                .to_vec(),
        ),
        _ => None,
    }
}

/// The challenge scalar for commitment `r`, public key `a` and `stmt`.
fn challenge(r: &[u8], a: &[u8], stmt: &[u8]) -> (c: Vec<u8>)
    requires
        r@.len() == KEY_LEN,
    ensures
        c@ == challenge_spec(r@, a@, stmt@),
        c@.len() == KEY_LEN,
        is_canonical_scalar(c@),
{
    let mut input: Vec<u8> = Vec::new();
    append_bytes(&mut input, r);
    append_bytes(&mut input, a);
    append_bytes(&mut input, stmt);
    assert(input@ =~= r@ + a@ + stmt@);
    let empty: Vec<u8> = Vec::new();
    let wide = match derive_key(input.as_slice(), empty.as_slice(), PROOF_LABEL.as_bytes(), WIDE_LEN) {
        Ok(w) => w,
        Err(_) => Vec::new(),
    };
    scalar_from_wide(wide.as_slice())
}

/// The proof for the identity scalar `identity_private` on `statement` made
/// with the nonce scalar `nonce_private`.
pub fn generate_proof_with(identity_private: &[u8], nonce_private: &[u8], statement: &[u8]) -> (r: Result<Vec<u8>, VaultError>)
    ensures
        identity_private@.len() != KEY_LEN || nonce_private@.len() != KEY_LEN
            ==> r matches Err(VaultError::InvalidArgument),
        identity_private@.len() == KEY_LEN && nonce_private@.len() == KEY_LEN
            && !(valid_private(identity_private@) && valid_private(nonce_private@))
            ==> r matches Err(VaultError::EncodingInvalid),
        valid_private(identity_private@) && valid_private(nonce_private@) ==> (r matches Ok(p)
            && p@ == proof_spec(identity_private@, nonce_private@, statement@) && p@.len() == PROOF_LEN),
{
    let a = match public_key_of(identity_private) {
        Ok(p) => p,
        Err(e) => {
            if nonce_private.len() != KEY_LEN {
                return Err(VaultError::InvalidArgument);
            }
            return Err(e);
        },
    };
    let commitment = match public_key_of(nonce_private) {
        Ok(p) => p,
        Err(e) => return Err(e),
    };
    let c = challenge(commitment.as_slice(), a.as_slice(), statement);
    match scalar_mul_add(c.as_slice(), identity_private, nonce_private) {
        Some(s) => {
            let mut proof = commitment;
            append_bytes(&mut proof, s.as_slice());
            Ok(proof)
        },
        None => Err(VaultError::EncodingInvalid),
    }
}

/// A non-interactive Schnorr proof of knowledge of `identity_private` bound
/// to `statement`; the nonce scalar is fresh and erased after use.
pub fn generate_proof(identity_private: &[u8], statement: &[u8]) -> (r: Result<Vec<u8>, VaultError>)
    ensures
        identity_private@.len() != KEY_LEN ==> r matches Err(VaultError::InvalidArgument),
        identity_private@.len() == KEY_LEN && !valid_private(identity_private@)
            ==> r matches Err(VaultError::EncodingInvalid),
        r matches Ok(p) ==> p@.len() == PROOF_LEN && exists|k: Seq<u8>| valid_private(k)
            && p@ == #[trigger] proof_spec(identity_private@, k, statement@),
        valid_private(identity_private@) && r is Err ==> r matches Err(VaultError::RngFailure),
{
    match public_key_of(identity_private) {
        Ok(_) => {},
        Err(e) => return Err(e),
    }
    let mut nonce = match generate_keypair() {
        Ok(kp) => kp,
        Err(e) => return Err(e),
    };
    let r = generate_proof_with(identity_private, nonce.private.as_slice(), statement);
    let ghost k = nonce.private@;
    secure_zero(&mut nonce.private);
    match r {
        Ok(p) => {
            assert(valid_private(k) && p@ == proof_spec(identity_private@, k, statement@));
            Ok(p)
        },
        Err(_) => Err(VaultError::InternalFailure),
    }
}

/// Whether `proof` shows knowledge of the private scalar of `identity_public`
/// for `statement`. Malformed input yields `false`.
pub fn verify_proof(proof: &[u8], identity_public: &[u8], statement: &[u8]) -> (r: bool)
    ensures
        r == verify_spec(proof@, identity_public@, statement@),
{
    if proof.len() != PROOF_LEN || identity_public.len() != KEY_LEN {
        return false;
    }
    let commitment = slice_to_vec(proof, 0, KEY_LEN);
    let s = slice_to_vec(proof, KEY_LEN, PROOF_LEN);
    let c = challenge(commitment.as_slice(), identity_public, statement);
    match schnorr_commitment(s.as_slice(), c.as_slice(), identity_public) {
        Some(expected) => bytes_equal(expected.as_slice(), commitment.as_slice()),
        None => false,
    }
}

} // verus!
