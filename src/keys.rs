use vstd::prelude::*;
use crate::error::VaultError;
use vstd::string::StringSliceAdditionalSpecFns;
use vstd::arithmetic::power2::pow2;
use crate::primitives::{all_zero, sha3_256_of, append_bytes, hash_sha3_256, random_bytes, secure_zero, DIGEST_LEN};

verus! {

/// Length of a classical private scalar and of a compressed public point.
pub const KEY_LEN: usize = 32;

/// Length of an Ed25519 signature.
pub const SIGNATURE_LEN: usize = 64;

/// Random bytes drawn per scalar; reducing 64 bytes keeps the scalar uniform.
pub const WIDE_LEN: usize = 64;

/// How many draws key generation makes before it reports the entropy source as broken.
pub const MAX_KEYGEN_ATTEMPTS: usize = 4;

/// The unsigned integer that `s` encodes little-endian.
pub open spec fn le_value(s: Seq<u8>) -> nat
    decreases s.len(),
{
    if s.len() == 0 {
        0
    } else {
        s[0] as nat + 256 * le_value(s.subrange(1, s.len() as int))
    }
}

/// The `len` little-endian bytes of `n` modulo 256 to the power `len`.
pub open spec fn le_bytes(n: nat, len: nat) -> Seq<u8>
    decreases len,
{
    if len == 0 {
        Seq::empty()
    } else {
        seq![(n % 256) as u8] + le_bytes(n / 256, (len - 1) as nat)
    }
}

/// The order of the Ed25519 base point, 2^252 + 27742317777372353535851937790883648493.
pub open spec fn group_order() -> nat {
    pow2(252) + 27742317777372353535851937790883648493nat
}

/// The 32-byte encoding of the scalar `n` modulo the group order.
pub open spec fn scalar_bytes(n: nat) -> Seq<u8> {
    le_bytes(n % group_order(), KEY_LEN as nat)
}

/// `s` is the canonical little-endian encoding of a scalar below the group order.
pub open spec fn is_canonical_scalar(s: Seq<u8>) -> bool {
    s.len() == KEY_LEN && le_value(s) < group_order()
}

/// The scalar obtained by reducing the integer that 64 bytes encode modulo
/// the group order, encoded.
pub open spec fn reduce_wide_of(b: Seq<u8>) -> Seq<u8> {
    scalar_bytes(le_value(b))
}

/// The compressed encoding of `s` times the Ed25519 base point.
pub uninterp spec fn public_of(s: Seq<u8>) -> Seq<u8>;

/// The Ed25519 signature of `msg` under the expanded key (`scalar`, `prefix`).
pub uninterp spec fn signature_of(scalar: Seq<u8>, prefix: Seq<u8>, msg: Seq<u8>) -> Seq<u8>;

/// Ed25519 verification of `sig` on `msg` against the public key `public`.
pub uninterp spec fn signature_valid(public: Seq<u8>, msg: Seq<u8>, sig: Seq<u8>) -> bool;

/// Context label that separates the signing nonce prefix from other hashes of a key.
pub const SIGN_PREFIX_LABEL: &'static str = "VaultMessenger-sign-prefix";

/// A classical key pair: a private scalar and its public point.
pub struct AsymmetricKeyPair {
    pub public: Vec<u8>,
    pub private: Vec<u8>,
}

/// A key pair whose public key is signed by an identity key.
pub struct SignedPreKey {
    pub keypair: AsymmetricKeyPair,
    pub signature: Vec<u8>,
    pub created_at: u64,
}

/// A usable private scalar: canonical and not zero.
pub open spec fn valid_private(s: Seq<u8>) -> bool {
    s.len() == KEY_LEN && is_canonical_scalar(s) && !all_zero(s)
}

impl AsymmetricKeyPair {
    /// The private scalar is usable and the public key is its point.
    pub open spec fn wf(&self) -> bool {
        valid_private(self.private@) && self.public@ == public_of(self.private@)
            && self.public@.len() == KEY_LEN
    }
}

impl SignedPreKey {
    /// A well-formed key pair whose public key is signed under `identity_public`.
    pub open spec fn wf(&self, identity_public: Seq<u8>) -> bool {
        self.keypair.wf() && self.signature@.len() == SIGNATURE_LEN
            && signature_valid(identity_public, self.keypair.public@, self.signature@)
    }
}

/// Relies on curve25519_dalek::scalar::Scalar::from_bytes_mod_order_wide: the
/// reduction of 64 bytes modulo the group order, which is canonical.
#[verifier::external_body]
pub(crate) fn scalar_from_wide(b: &[u8]) -> (r: Vec<u8>)
    requires
        b@.len() == WIDE_LEN,
    ensures
        r@ == reduce_wide_of(b@),
        r@.len() == KEY_LEN,
        is_canonical_scalar(r@),
{
    let mut wide = [0u8; 64];
    wide.copy_from_slice(b);
    curve25519_dalek::scalar::Scalar::from_bytes_mod_order_wide(&wide).to_bytes().to_vec()
}

/// Relies on Scalar::from_canonical_bytes, which accepts exactly the canonical
/// encodings, and EdwardsPoint::mul_base followed by compress.
#[verifier::external_body]
fn base_mul(s: &[u8]) -> (r: Option<Vec<u8>>)
    requires
        s@.len() == KEY_LEN,
    ensures
        r is Some <==> is_canonical_scalar(s@),
        r is Some ==> r.unwrap()@ == public_of(s@) && r.unwrap()@.len() == KEY_LEN,
{
    let mut bytes = [0u8; 32];
    bytes.copy_from_slice(s);
    let scalar: Option<curve25519_dalek::scalar::Scalar> =
        curve25519_dalek::scalar::Scalar::from_canonical_bytes(bytes).into();
    scalar.map(|x| curve25519_dalek::edwards::EdwardsPoint::mul_base(&x).compress().to_bytes().to_vec())
}

/// Relies on ed25519_dalek::hazmat::raw_sign with SHA-512: the Ed25519
/// signature under the expanded key whose scalar is `scalar` (accepted when
/// canonical) and whose nonce prefix is `prefix`.
#[verifier::external_body]
fn ed25519_sign(scalar: &[u8], prefix: &[u8], msg: &[u8]) -> (r: Option<Vec<u8>>)
    requires
        scalar@.len() == KEY_LEN,
        prefix@.len() == DIGEST_LEN,
    ensures
        r is Some <==> is_canonical_scalar(scalar@),
        r is Some ==> r.unwrap()@ == signature_of(scalar@, prefix@, msg@)
            && r.unwrap()@.len() == SIGNATURE_LEN,
{
    let mut bytes = [0u8; 32];
    bytes.copy_from_slice(scalar);
    let mut hash_prefix = [0u8; 32];
    hash_prefix.copy_from_slice(prefix);
    let s: Option<curve25519_dalek::scalar::Scalar> =
        curve25519_dalek::scalar::Scalar::from_canonical_bytes(bytes).into();
    s.map(|s| {
        let esk = ed25519_dalek::hazmat::ExpandedSecretKey { scalar: s, hash_prefix };
        let vk = ed25519_dalek::VerifyingKey::from(&esk);
        ed25519_dalek::hazmat::raw_sign::<sha2::Sha512>(&esk, msg, &vk).to_bytes().to_vec()
    })
}

/// Relies on ed25519_dalek::VerifyingKey::from_bytes and Verifier::verify: a
/// public key that does not decode fails verification.
#[verifier::external_body]
fn ed25519_verify(public: &[u8], msg: &[u8], sig: &[u8]) -> (r: bool)
    requires
        public@.len() == KEY_LEN,
        sig@.len() == SIGNATURE_LEN,
    ensures
        r == signature_valid(public@, msg@, sig@),
{
    let mut pk = [0u8; 32];
    pk.copy_from_slice(public);
    let mut sb = [0u8; 64];
    sb.copy_from_slice(sig);
    match ed25519_dalek::VerifyingKey::from_bytes(&pk) {
        Ok(vk) => ed25519_dalek::Verifier::verify(&vk, msg, &ed25519_dalek::Signature::from_bytes(&sb)).is_ok(),
        Err(_) => false,
    }
}

/// Whether every byte of `s` is zero.
pub fn is_all_zero(s: &[u8]) -> (r: bool)
    ensures
        r == all_zero(s@),
{
    let mut acc: u8 = 0;
    let mut i: usize = 0;
    while i < s.len()
        invariant
            i <= s@.len(),
            (acc == 0) == (forall|j: int| 0 <= j < i ==> s@[j] == 0u8),
        decreases s@.len() - i,
    {
        let b = s[i];
        assert((acc | b == 0u8) == (acc == 0u8 && b == 0u8)) by (bit_vector);
        acc = acc | b;
        i = i + 1;
    }
    acc == 0
}

/// The public key of a private scalar, or an error when the encoding is not
/// that of a usable scalar.
pub fn public_key_of(private: &[u8]) -> (r: Result<Vec<u8>, VaultError>)
    ensures
        private@.len() != KEY_LEN ==> r == Err::<Vec<u8>, VaultError>(VaultError::InvalidArgument),
        private@.len() == KEY_LEN && !valid_private(private@)
            ==> r == Err::<Vec<u8>, VaultError>(VaultError::EncodingInvalid),
        valid_private(private@) ==> (r matches Ok(p) && p@ == public_of(private@) && p@.len() == KEY_LEN),
{
    if private.len() != KEY_LEN {
        return Err(VaultError::InvalidArgument);
    }
    if is_all_zero(private) {
        return Err(VaultError::EncodingInvalid);
    }
    match base_mul(private) {
        Some(p) => Ok(p),
        None => Err(VaultError::EncodingInvalid),
    }
}

/// `private` is the reduction of some 64 bytes modulo the group order, as
/// every drawn private key is.
pub open spec fn drawn_from_some_wide(private: Seq<u8>) -> bool {
    exists|w: Seq<u8>| w.len() == WIDE_LEN && private == #[trigger] reduce_wide_of(w)
}

/// The key pair whose private scalar is the reduction of the 64 bytes
/// `wide`; `None` when that scalar is zero, which no key may use.
pub fn keypair_from_wide(wide: &[u8]) -> (r: Option<AsymmetricKeyPair>)
    ensures
        wide@.len() != WIDE_LEN ==> r is None,
        wide@.len() == WIDE_LEN ==> (r is Some <==> !all_zero(reduce_wide_of(wide@))),
        r matches Some(kp) ==> kp.private@ == reduce_wide_of(wide@) && kp.wf(),
{
    if wide.len() != WIDE_LEN {
        return None;
    }
    let mut private = scalar_from_wide(wide);
    if is_all_zero(private.as_slice()) {
        return None;
    }
    match base_mul(private.as_slice()) {
        Some(public) => Some(AsymmetricKeyPair { public, private }),
        None => {
            secure_zero(&mut private);
            None
        },
    }
}

/// A fresh key pair from the operating system's entropy source. A draw whose
/// scalar reduces to zero is discarded and drawn again; a source that keeps
/// yielding such draws is reported as `RngFailure`.
pub fn generate_keypair() -> (r: Result<AsymmetricKeyPair, VaultError>)
    ensures
        r matches Ok(kp) ==> kp.wf() && drawn_from_some_wide(kp.private@),
        r is Err ==> r matches Err(VaultError::RngFailure),
{
    let mut attempt: usize = 0;
    while attempt < MAX_KEYGEN_ATTEMPTS
        invariant
            attempt <= MAX_KEYGEN_ATTEMPTS,
        decreases MAX_KEYGEN_ATTEMPTS - attempt,
    {
        let mut wide = match random_bytes(WIDE_LEN) {
            Ok(w) => w,
            Err(e) => return Err(e),
        };
        let kp = keypair_from_wide(wide.as_slice());
        let ghost w = wide@;
        secure_zero(&mut wide);
        match kp {
            Some(kp) => {
                assert(w.len() == WIDE_LEN && kp.private@ == reduce_wide_of(w));
                return Ok(kp);
            },
            None => {},
        }
        attempt = attempt + 1;
    }
    Err(VaultError::RngFailure)
}

/// The secret nonce prefix that goes with a signing scalar: the SHA3-256
/// digest of a fixed label followed by the scalar.
pub open spec fn sign_prefix_spec(scalar: Seq<u8>) -> Seq<u8> {
    sha3_256_of(SIGN_PREFIX_LABEL.spec_bytes() + scalar)
}

/// Signs `msg` with the identity scalar `private`, or reports why it cannot.
pub fn sign(private: &[u8], msg: &[u8]) -> (r: Result<Vec<u8>, VaultError>)
    ensures
        private@.len() != KEY_LEN ==> r == Err::<Vec<u8>, VaultError>(VaultError::InvalidArgument),
        private@.len() == KEY_LEN && !valid_private(private@)
            ==> r == Err::<Vec<u8>, VaultError>(VaultError::EncodingInvalid),
        valid_private(private@) ==> (r matches Ok(s) && s@ == signature_of(private@, sign_prefix_spec(private@), msg@)
            && s@.len() == SIGNATURE_LEN),
{
    let mut scratch: Vec<u8> = Vec::new();
    sign_with_scratch(private, msg, &mut scratch)
}

/// Signs like `sign`, holding the secret intermediates (the labelled scalar,
/// then the nonce prefix) in `scratch` only; `scratch` is all zero when the
/// call returns, on every path.
pub fn sign_with_scratch(private: &[u8], msg: &[u8], scratch: &mut Vec<u8>) -> (r: Result<Vec<u8>, VaultError>)
    ensures
        all_zero(final(scratch)@),
        private@.len() != KEY_LEN ==> r == Err::<Vec<u8>, VaultError>(VaultError::InvalidArgument),
        private@.len() == KEY_LEN && !valid_private(private@)
            ==> r == Err::<Vec<u8>, VaultError>(VaultError::EncodingInvalid),
        valid_private(private@) ==> (r matches Ok(s) && s@ == signature_of(private@, sign_prefix_spec(private@), msg@)
            && s@.len() == SIGNATURE_LEN),
{
    if private.len() != KEY_LEN {
        secure_zero(scratch);
        return Err(VaultError::InvalidArgument);
    }
    if is_all_zero(private) {
        secure_zero(scratch);
        return Err(VaultError::EncodingInvalid);
    }
    *scratch = Vec::new();
    append_bytes(scratch, SIGN_PREFIX_LABEL.as_bytes());
    append_bytes(scratch, private);
    let prefix = hash_sha3_256(scratch.as_slice());
    secure_zero(scratch);
    *scratch = prefix;
    let r = match ed25519_sign(private, scratch.as_slice(), msg) {
        Some(s) => Ok(s),
        None => Err(VaultError::EncodingInvalid),
    };
    secure_zero(scratch);
    r
}

/// Whether `signature` is a valid signature of `prekey_public` under
/// `identity_public`. Mis-sized inputs do not verify.
pub fn verify_signed_prekey(identity_public: &[u8], prekey_public: &[u8], signature: &[u8]) -> (r: bool)
    ensures
        r == (identity_public@.len() == KEY_LEN && signature@.len() == SIGNATURE_LEN
            && signature_valid(identity_public@, prekey_public@, signature@)),
{
    if identity_public.len() != KEY_LEN || signature.len() != SIGNATURE_LEN {
        return false;
    }
    ed25519_verify(identity_public, prekey_public, signature)
}

/// A fresh key pair whose public key is signed with the identity scalar
/// `identity_private`. The signature is checked before it is handed out.
pub fn generate_signed_prekey(identity_private: &[u8], created_at: u64) -> (r: Result<SignedPreKey, VaultError>)
    ensures
        identity_private@.len() != KEY_LEN ==> r matches Err(VaultError::InvalidArgument),
        identity_private@.len() == KEY_LEN && !valid_private(identity_private@)
            ==> r matches Err(VaultError::EncodingInvalid),
        valid_private(identity_private@) && r is Err
            ==> (r matches Err(VaultError::RngFailure) || r matches Err(VaultError::InternalFailure)),
        r matches Ok(spk) ==> spk.wf(public_of(identity_private@)) && spk.created_at == created_at
            && drawn_from_some_wide(spk.keypair.private@)
            && spk.signature@ == signature_of(
                identity_private@,
                sign_prefix_spec(identity_private@),
                spk.keypair.public@,
            ),
{
    let identity_public = match public_key_of(identity_private) {
        Ok(p) => p,
        Err(e) => return Err(e),
    };
    let mut keypair = match generate_keypair() {
        Ok(kp) => kp,
        Err(e) => return Err(e),
    };
    let signature = match sign(identity_private, keypair.public.as_slice()) {
        Ok(s) => s,
        Err(_) => {
            secure_zero(&mut keypair.private);
            return Err(VaultError::InternalFailure);
        },
    };
    if !ed25519_verify(identity_public.as_slice(), keypair.public.as_slice(), signature.as_slice()) {
        secure_zero(&mut keypair.private);
        return Err(VaultError::InternalFailure);
    }
    Ok(SignedPreKey { keypair, signature, created_at })
}

/// A fresh long-lived identity key pair.
pub fn generate_identity_keypair() -> (r: Result<AsymmetricKeyPair, VaultError>)
    ensures
        r matches Ok(kp) ==> kp.wf() && drawn_from_some_wide(kp.private@),
        r is Err ==> r matches Err(VaultError::RngFailure),
{
    generate_keypair()
}

/// A fresh one-time prekey pair; generated exactly as an identity key pair,
/// single use being the caller's to enforce.
pub fn generate_onetime_prekey() -> (r: Result<AsymmetricKeyPair, VaultError>)
    ensures
        r matches Ok(kp) ==> kp.wf() && drawn_from_some_wide(kp.private@),
        r is Err ==> r matches Err(VaultError::RngFailure),
{
    generate_keypair()
}

} // verus!
