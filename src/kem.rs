use vstd::prelude::*;
use crate::error::VaultError;
use crate::primitives::{random_bytes, secure_zero, slice_to_vec};
use ml_kem::{EncapsulateDeterministic, EncodedSizeUser, KemCore};
use ml_kem::kem::Decapsulate;

verus! {

/// ML-KEM-768 encapsulation key length.
pub const PQ_PUBLIC_LEN: usize = 1184;

/// ML-KEM-768 decapsulation key length.
pub const PQ_PRIVATE_LEN: usize = 2400;

/// ML-KEM-768 ciphertext length.
pub const PQ_CIPHERTEXT_LEN: usize = 1088;

/// ML-KEM shared secret length.
pub const PQ_SHARED_LEN: usize = 32;

/// Length of each key-generation seed and of the encapsulation randomness.
pub const PQ_SEED_LEN: usize = 32;

/// Offset of the encapsulation key inside an encoded decapsulation key
/// (after the 1152-byte decryption key).
pub const PQ_PUBLIC_OFFSET: usize = 1152;

/// The encoded ML-KEM-768 decapsulation key generated from seeds `d` and `z`.
pub uninterp spec fn kem_private_of(d: Seq<u8>, z: Seq<u8>) -> Seq<u8>;

/// The ciphertext of ML-KEM-768 encapsulation to `ek` with randomness `m`.
pub uninterp spec fn kem_ciphertext_of(ek: Seq<u8>, m: Seq<u8>) -> Seq<u8>;

/// The shared secret of ML-KEM-768 encapsulation to `ek` with randomness `m`.
pub uninterp spec fn kem_secret_of(ek: Seq<u8>, m: Seq<u8>) -> Seq<u8>;

/// The shared secret that ML-KEM-768 decapsulation of `ct` with `dk` yields.
pub uninterp spec fn kem_decaps_of(dk: Seq<u8>, ct: Seq<u8>) -> Seq<u8>;

/// The encapsulation key held inside an encoded decapsulation key.
pub open spec fn kem_public_of(dk: Seq<u8>) -> Seq<u8> {
    dk.subrange(PQ_PUBLIC_OFFSET as int, (PQ_PUBLIC_OFFSET + PQ_PUBLIC_LEN) as int)
}

/// Number of byte triples that encode the coefficients of an encapsulation key.
pub const PQ_COEFF_TRIPLES: usize = 384;

/// The modulus of ML-KEM's coefficients.
pub const PQ_Q: u32 = 3329;

/// Both 12-bit coefficients packed little-endian in `b0`, `b1`, `b2` are below the modulus.
pub open spec fn coefficients_ok(b0: u8, b1: u8, b2: u8) -> bool {
    (b0 as int + (b1 as int % 16) * 256) < PQ_Q && (b1 as int / 16 + b2 as int * 16) < PQ_Q
}

/// The coefficients in triple `i` of `ek` are below the modulus.
pub open spec fn triple_ok(ek: Seq<u8>, i: int) -> bool {
    coefficients_ok(ek[3 * i], ek[3 * i + 1], ek[3 * i + 2])
}

/// `ek` is a well-formed ML-KEM-768 encapsulation key: the right size, and
/// every coefficient reduced modulo q (the FIPS 203 modulus check).
pub open spec fn kem_public_well_formed(ek: Seq<u8>) -> bool {
    ek.len() == PQ_PUBLIC_LEN && forall|i: int| 0 <= i < PQ_COEFF_TRIPLES ==> #[trigger] triple_ok(ek, i)
}

/// Whether `ek` passes the modulus check; its length must be that of an
/// encapsulation key.
pub fn check_kem_public(ek: &[u8]) -> (r: bool)
    ensures
        r == kem_public_well_formed(ek@),
{
    if ek.len() != PQ_PUBLIC_LEN {
        return false;
    }
    let mut i: usize = 0;
    while i < PQ_COEFF_TRIPLES
        invariant
            ek@.len() == PQ_PUBLIC_LEN,
            i <= PQ_COEFF_TRIPLES,
            forall|j: int| 0 <= j < i ==> #[trigger] triple_ok(ek@, j),
        decreases PQ_COEFF_TRIPLES - i,
    {
        let b0 = ek[3 * i] as u32;
        let b1 = ek[3 * i + 1] as u32;
        let b2 = ek[3 * i + 2] as u32;
        if b0 + (b1 % 16) * 256 >= PQ_Q || b1 / 16 + b2 * 16 >= PQ_Q {
            assert(!triple_ok(ek@, i as int));
            return false;
        }
        i = i + 1;
    }
    true
}

/// A post-quantum key pair.
pub struct PostQuantumKeyPair {
    pub public: Vec<u8>,
    pub private: Vec<u8>,
}

impl PostQuantumKeyPair {
    /// Sized per the scheme, with the public key the one the private key holds.
    pub open spec fn wf(&self) -> bool {
        self.private@.len() == PQ_PRIVATE_LEN && self.public@ == kem_public_of(self.private@)
    }
}

/// The outcome of an encapsulation: the ciphertext to send and the secret.
pub struct Encapsulation {
    pub ciphertext: Vec<u8>,
    pub shared_secret: Vec<u8>,
}

/// Relies on ml_kem::MlKem768::generate_deterministic and
/// DecapsulationKey::as_bytes: the encoded decapsulation key for seeds `d`, `z`.
#[verifier::external_body]
fn kem_generate(d: &[u8], z: &[u8]) -> (r: Vec<u8>)
    requires
        d@.len() == PQ_SEED_LEN,
        z@.len() == PQ_SEED_LEN,
    ensures
        r@ == kem_private_of(d@, z@),
        r@.len() == PQ_PRIVATE_LEN,
{
    let mut da = [0u8; 32];
    da.copy_from_slice(d);
    let mut za = [0u8; 32];
    za.copy_from_slice(z);
    let (dk, _ek) = ml_kem::MlKem768::generate_deterministic(&da.into(), &za.into());
    dk.as_bytes().to_vec()
}

/// Relies on EncapsulationKey::from_bytes and
/// EncapsulateDeterministic::encapsulate_deterministic, which never fails.
#[verifier::external_body]
fn kem_encapsulate(ek: &[u8], m: &[u8]) -> (r: Option<(Vec<u8>, Vec<u8>)>)
    requires
        ek@.len() == PQ_PUBLIC_LEN,
        m@.len() == PQ_SEED_LEN,
    ensures
        r is Some,
        r.unwrap().0@ == kem_ciphertext_of(ek@, m@),
        r.unwrap().1@ == kem_secret_of(ek@, m@),
        r.unwrap().0@.len() == PQ_CIPHERTEXT_LEN,
        r.unwrap().1@.len() == PQ_SHARED_LEN,
{
    let enc = ml_kem::Encoded::<ml_kem::kem::EncapsulationKey<ml_kem::MlKem768Params>>::try_from(ek).ok()?;
    let key = ml_kem::kem::EncapsulationKey::<ml_kem::MlKem768Params>::from_bytes(&enc);
    let mut ma = [0u8; 32];
    ma.copy_from_slice(m);
    let (ct, ss) = key.encapsulate_deterministic(&ma.into()).ok()?;
    Some((ct.to_vec(), ss.to_vec()))
}

/// Relies on DecapsulationKey::from_bytes and Decapsulate::decapsulate, which
/// never fails (a mismatched ciphertext yields an unrelated secret).
#[verifier::external_body]
fn kem_decapsulate(dk: &[u8], ct: &[u8]) -> (r: Option<Vec<u8>>)
    requires
        dk@.len() == PQ_PRIVATE_LEN,
        ct@.len() == PQ_CIPHERTEXT_LEN,
    ensures
        r is Some,
        r.unwrap()@ == kem_decaps_of(dk@, ct@),
        r.unwrap()@.len() == PQ_SHARED_LEN,
{
    let enc = ml_kem::Encoded::<ml_kem::kem::DecapsulationKey<ml_kem::MlKem768Params>>::try_from(dk).ok()?;
    let key = ml_kem::kem::DecapsulationKey::<ml_kem::MlKem768Params>::from_bytes(&enc);
    let c = ml_kem::Ciphertext::<ml_kem::MlKem768>::try_from(ct).ok()?;
    let ss = key.decapsulate(&c).ok()?;
    Some(ss.to_vec())
}

/// The key pair generated from the seeds `d` and `z`.
pub fn pq_keypair_from_seeds(d: &[u8], z: &[u8]) -> (r: Result<PostQuantumKeyPair, VaultError>)
    ensures
        d@.len() != PQ_SEED_LEN || z@.len() != PQ_SEED_LEN ==> r matches Err(VaultError::InvalidArgument),
        d@.len() == PQ_SEED_LEN && z@.len() == PQ_SEED_LEN ==> (r matches Ok(kp) && kp.wf()
            && kp.private@ == kem_private_of(d@, z@)),
{
    if d.len() != PQ_SEED_LEN || z.len() != PQ_SEED_LEN {
        return Err(VaultError::InvalidArgument);
    }
    let private = kem_generate(d, z);
    let public = slice_to_vec(private.as_slice(), PQ_PUBLIC_OFFSET, PQ_PUBLIC_OFFSET + PQ_PUBLIC_LEN);
    Ok(PostQuantumKeyPair { public, private })
}

/// A fresh ML-KEM-768 key pair from the operating system's entropy source.
pub fn pq_keygen() -> (r: Result<PostQuantumKeyPair, VaultError>)
    ensures
        r matches Ok(kp) ==> kp.wf() && exists|d: Seq<u8>, z: Seq<u8>|
            kp.private@ == #[trigger] kem_private_of(d, z),
        r is Err ==> r matches Err(VaultError::RngFailure),
{
    let mut d = match random_bytes(PQ_SEED_LEN) {
        Ok(v) => v,
        Err(e) => return Err(e),
    };
    let mut z = match random_bytes(PQ_SEED_LEN) {
        Ok(v) => v,
        Err(e) => {
            secure_zero(&mut d);
            return Err(e);
        },
    };
    let r = pq_keypair_from_seeds(d.as_slice(), z.as_slice());
    let ghost seeds = (d@, z@);
    secure_zero(&mut d);
    secure_zero(&mut z);
    match r {
        Ok(kp) => {
            assert(kp.private@ == kem_private_of(seeds.0, seeds.1));
            Ok(kp)
        },
        Err(_) => Err(VaultError::InternalFailure),
    }
}

/// Encapsulation to `public` with the randomness `m`.
pub fn pq_encapsulate_with(public: &[u8], m: &[u8]) -> (r: Result<Encapsulation, VaultError>)
    ensures
        public@.len() != PQ_PUBLIC_LEN || m@.len() != PQ_SEED_LEN ==> r matches Err(VaultError::InvalidArgument),
        public@.len() == PQ_PUBLIC_LEN && m@.len() == PQ_SEED_LEN && !kem_public_well_formed(public@)
            ==> r matches Err(VaultError::EncodingInvalid),
        kem_public_well_formed(public@) && m@.len() == PQ_SEED_LEN ==> (r matches Ok(e)
            && e.ciphertext@ == kem_ciphertext_of(public@, m@) && e.shared_secret@ == kem_secret_of(public@, m@)
            && e.ciphertext@.len() == PQ_CIPHERTEXT_LEN && e.shared_secret@.len() == PQ_SHARED_LEN),
{
    if public.len() != PQ_PUBLIC_LEN || m.len() != PQ_SEED_LEN {
        return Err(VaultError::InvalidArgument);
    }
    if !check_kem_public(public) {
        return Err(VaultError::EncodingInvalid);
    }
    match kem_encapsulate(public, m) {
        Some((ciphertext, shared_secret)) => Ok(Encapsulation { ciphertext, shared_secret }),
        None => Err(VaultError::InternalFailure),
    }
}

/// Encapsulation of a fresh secret to `public`.
pub fn pq_encapsulate(public: &[u8]) -> (r: Result<Encapsulation, VaultError>)
    ensures
        public@.len() != PQ_PUBLIC_LEN ==> r matches Err(VaultError::InvalidArgument),
        public@.len() == PQ_PUBLIC_LEN && !kem_public_well_formed(public@)
            ==> r matches Err(VaultError::EncodingInvalid),
        r matches Ok(e) ==> e.ciphertext@.len() == PQ_CIPHERTEXT_LEN && e.shared_secret@.len() == PQ_SHARED_LEN
            && exists|m: Seq<u8>|
            e.ciphertext@ == #[trigger] kem_ciphertext_of(public@, m) && e.shared_secret@ == kem_secret_of(public@, m),
        kem_public_well_formed(public@) && r is Err ==> r matches Err(VaultError::RngFailure),
{
    if public.len() != PQ_PUBLIC_LEN {
        return Err(VaultError::InvalidArgument);
    }
    if !check_kem_public(public) {
        return Err(VaultError::EncodingInvalid);
    }
    let mut m = match random_bytes(PQ_SEED_LEN) {
        Ok(v) => v,
        Err(e) => return Err(e),
    };
    let r = pq_encapsulate_with(public, m.as_slice());
    let ghost mm = m@;
    secure_zero(&mut m);
    match r {
        Ok(e) => {
            assert(e.ciphertext@ == kem_ciphertext_of(public@, mm));
            Ok(e)
        },
        Err(_) => Err(VaultError::RngFailure),
    }
}

/// The shared secret that `private` recovers from `ciphertext`.
pub fn pq_decapsulate(ciphertext: &[u8], private: &[u8]) -> (r: Result<Vec<u8>, VaultError>)
    ensures
        ciphertext@.len() != PQ_CIPHERTEXT_LEN || private@.len() != PQ_PRIVATE_LEN
            ==> r matches Err(VaultError::InvalidArgument),
        ciphertext@.len() == PQ_CIPHERTEXT_LEN && private@.len() == PQ_PRIVATE_LEN
            ==> (r matches Ok(ss) && ss@ == kem_decaps_of(private@, ciphertext@) && ss@.len() == PQ_SHARED_LEN),
{
    if ciphertext.len() != PQ_CIPHERTEXT_LEN || private.len() != PQ_PRIVATE_LEN {
        return Err(VaultError::InvalidArgument);
    }
    match kem_decapsulate(private, ciphertext) {
        Some(ss) => Ok(ss),
        None => Err(VaultError::InternalFailure),
    }
}

} // verus!
