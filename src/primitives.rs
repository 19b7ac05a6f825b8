use vstd::prelude::*;
use crate::error::VaultError;
use sha3::Digest;

verus! {

/// Length in bytes of every digest and symmetric key of the core.
pub const DIGEST_LEN: usize = 32;

/// Largest output the key-derivation function can produce (255 blocks of 32 bytes).
pub const MAX_KDF_OUTPUT: usize = 8160;

/// The SHA3-256 digest of a byte sequence.
pub uninterp spec fn sha3_256_of(data: Seq<u8>) -> Seq<u8>;

/// The BLAKE3 digest (32 bytes) of a byte sequence.
pub uninterp spec fn blake3_of(data: Seq<u8>) -> Seq<u8>;

/// HKDF over SHA3-256: extract with `salt`, expand with `label` to `len` bytes.
pub uninterp spec fn hkdf_of(secret: Seq<u8>, salt: Seq<u8>, label: Seq<u8>, len: nat) -> Seq<u8>;

/// Every byte of `s` is zero.
pub open spec fn all_zero(s: Seq<u8>) -> bool {
    forall|i: int| 0 <= i < s.len() ==> s[i] == 0u8
}

/// What `derive_key` returns on the given inputs.
pub open spec fn derive_key_spec(secret: Seq<u8>, salt: Seq<u8>, label: Seq<u8>, len: nat) -> Result<Seq<u8>, VaultError> {
    if secret.len() == 0 || len == 0 || len > MAX_KDF_OUTPUT {
        Err(VaultError::InvalidArgument)
    } else {
        Ok(hkdf_of(secret, salt, label, len))
    }
}

/// The view of a byte-vector result.
pub open spec fn bytes_result(r: Result<Vec<u8>, VaultError>) -> Result<Seq<u8>, VaultError> {
    match r {
        Ok(v) => Ok(v@),
        Err(e) => Err(e),
    }
}

/// Relies on sha3::Sha3_256::digest: the 32-byte SHA3-256 digest of `data`.
#[verifier::external_body]
fn sha3_digest(data: &[u8]) -> (r: Vec<u8>)
    ensures
        r@ == sha3_256_of(data@),
        r@.len() == 32,
{
    sha3::Sha3_256::digest(data).to_vec()
}

/// Relies on blake3::hash: the 32-byte BLAKE3 digest of `data`.
#[verifier::external_body]
fn blake3_digest(data: &[u8]) -> (r: Vec<u8>)
    ensures
        r@ == blake3_of(data@),
        r@.len() == 32,
{
    blake3::hash(data).as_bytes().to_vec()
}

/// Relies on hkdf::Hkdf::<Sha3_256>::{new, expand}: expansion fails only when
/// more than 255 blocks of output are asked for.
#[verifier::external_body]
fn hkdf_expand(secret: &[u8], salt: &[u8], label: &[u8], len: usize) -> (r: Option<Vec<u8>>)
    requires
        len <= MAX_KDF_OUTPUT,
    ensures
        r is Some,
        r.unwrap()@ == hkdf_of(secret@, salt@, label@, len as nat),
        r.unwrap()@.len() == len,
{
    let hk = hkdf::Hkdf::<sha3::Sha3_256>::new(Some(salt), secret);
    let mut okm = std::vec::Vec::new();
    okm.resize(len, 0u8);
    match hk.expand(label, &mut okm) {
        Ok(()) => Some(okm),
        Err(_) => None,
    }
}

/// Relies on rand::rngs::OsRng::try_fill_bytes: a fresh draw from the operating
/// system's entropy source, reporting failure instead of falling back.
#[verifier::external_body]
fn os_fill(buf: &mut Vec<u8>) -> (ok: bool)
    ensures
        final(buf)@.len() == old(buf)@.len(),
{
    rand::RngCore::try_fill_bytes(&mut rand::rngs::OsRng, buf.as_mut_slice()).is_ok()
}

/// Relies on zeroize::Zeroize for `[u8]`: every byte is overwritten with zero by
/// writes the optimizer keeps.
#[verifier::external_body]
fn zeroize_bytes(buf: &mut Vec<u8>)
    ensures
        final(buf)@.len() == old(buf)@.len(),
        all_zero(final(buf)@),
{
    zeroize::Zeroize::zeroize(buf.as_mut_slice());
}

/// A vector of `n` zero bytes.
pub fn zeros(n: usize) -> (r: Vec<u8>)
    ensures
        r@.len() == n,
        all_zero(r@),
{
    let mut r: Vec<u8> = Vec::new();
    let mut i: usize = 0;
    while i < n
        invariant
            i <= n,
            r@.len() == i,
            all_zero(r@),
        decreases n - i,
    {
        r.push(0u8);
        i = i + 1;
    }
    r
}

/// Copies `src` over `dst`, which has the same length.
pub fn copy_into(dst: &mut Vec<u8>, src: &[u8])
    requires
        old(dst)@.len() == src@.len(),
    ensures
        final(dst)@ == src@,
{
    let n = src.len();
    let mut i: usize = 0;
    while i < n
        invariant
            n == src@.len(),
            i <= n,
            dst@.len() == n,
            forall|j: int| 0 <= j < i ==> dst@[j] == src@[j],
        decreases n - i,
    {
        dst.set(i, src[i]);
        i = i + 1;
    }
    assert(dst@ =~= src@);
}

/// The bytes `s[start..end]` as a new vector.
pub fn slice_to_vec(s: &[u8], start: usize, end: usize) -> (r: Vec<u8>)
    requires
        start <= end <= s@.len(),
    ensures
        r@ == s@.subrange(start as int, end as int),
{
    let mut r: Vec<u8> = Vec::new();
    let mut i: usize = start;
    while i < end
        invariant
            start <= i <= end,
            end <= s@.len(),
            r@ == s@.subrange(start as int, i as int),
        decreases end - i,
    {
        r.push(s[i]);
        i = i + 1;
        assert(r@ =~= s@.subrange(start as int, i as int));
    }
    r
}

/// Appends all of `src` to `dst`.
pub fn append_bytes(dst: &mut Vec<u8>, src: &[u8])
    ensures
        final(dst)@ == old(dst)@ + src@,
{
    let n = src.len();
    let mut i: usize = 0;
    while i < n
        invariant
            n == src@.len(),
            i <= n,
            dst@ == old(dst)@ + src@.subrange(0, i as int),
        decreases n - i,
    {
        dst.push(src[i]);
        i = i + 1;
        assert(dst@ =~= old(dst)@ + src@.subrange(0, i as int));
    }
    assert(src@.subrange(0, n as int) =~= src@);
}

/// Whether two byte sequences are equal, examining every byte whatever the
/// position of the first difference.
pub fn bytes_equal(a: &[u8], b: &[u8]) -> (r: bool)
    ensures
        r == (a@ == b@),
{
    if a.len() != b.len() {
        return false;
    }
    let mut diff: bool = false;
    let mut i: usize = 0;
    while i < a.len()
        invariant
            a@.len() == b@.len(),
            i <= a@.len(),
            diff == exists|j: int| 0 <= j < i && a@[j] != b@[j],
        decreases a@.len() - i,
    {
        let d = a[i] != b[i];
        diff = diff || d;
        i = i + 1;
    }
    if !diff {
        assert(a@ =~= b@);
    }
    !diff
}

/// The SHA3-256 digest of `data`.
pub fn hash_sha3_256(data: &[u8]) -> (r: Vec<u8>)
    ensures
        r@ == sha3_256_of(data@),
        r@.len() == DIGEST_LEN,
{
    sha3_digest(data)
}

/// The BLAKE3 digest of `data`.
pub fn hash_blake3(data: &[u8]) -> (r: Vec<u8>)
    ensures
        r@ == blake3_of(data@),
        r@.len() == DIGEST_LEN,
{
    blake3_digest(data)
}

/// Overwrites every byte of `buf` with zero.
pub fn secure_zero(buf: &mut Vec<u8>)
    ensures
        final(buf)@.len() == old(buf)@.len(),
        all_zero(final(buf)@),
{
    zeroize_bytes(buf);
}

/// Fills `buf` with fresh bytes from the operating system's entropy source.
/// On failure `buf` is left as it was and `RngFailure` is returned; the
/// scratch copy is erased on both paths.
pub fn secure_random(buf: &mut Vec<u8>) -> (r: Result<(), VaultError>)
    ensures
        final(buf)@.len() == old(buf)@.len(),
        r is Err ==> r == Err::<(), VaultError>(VaultError::RngFailure) && final(buf)@ == old(buf)@,
{
    let mut scratch = zeros(buf.len());
    let ok = os_fill(&mut scratch);
    if ok {
        copy_into(buf, scratch.as_slice());
        zeroize_bytes(&mut scratch);
        Ok(())
    } else {
        zeroize_bytes(&mut scratch);
        Err(VaultError::RngFailure)
    }
}

/// `len` fresh random bytes, or `RngFailure`.
pub fn random_bytes(len: usize) -> (r: Result<Vec<u8>, VaultError>)
    ensures
        r matches Ok(v) ==> v@.len() == len,
        r is Err ==> r == Err::<Vec<u8>, VaultError>(VaultError::RngFailure),
{
    let mut v = zeros(len);
    match secure_random(&mut v) {
        Ok(()) => Ok(v),
        Err(e) => Err(e),
    }
}

/// Extract-and-expand key derivation (HKDF over SHA3-256) of `len` bytes from
/// `secret`, `salt` and the context `label`.
pub fn derive_key(secret: &[u8], salt: &[u8], label: &[u8], len: usize) -> (r: Result<Vec<u8>, VaultError>)
    ensures
        bytes_result(r) == derive_key_spec(secret@, salt@, label@, len as nat),
        r matches Ok(v) ==> v@.len() == len,
{
    if secret.len() == 0 || len == 0 || len > MAX_KDF_OUTPUT {
        return Err(VaultError::InvalidArgument);
    }
    match hkdf_expand(secret, salt, label, len) {
        Some(v) => Ok(v),
        None => Err(VaultError::InternalFailure),
    }
}

/// Key derivation is deterministic: two derivations from the same secret,
/// salt, label and length give the same result, success or error.
pub proof fn lemma_derive_key_deterministic(
    secret: Seq<u8>,
    salt: Seq<u8>,
    label: Seq<u8>,
    len: nat,
    r1: Result<Seq<u8>, VaultError>,
    r2: Result<Seq<u8>, VaultError>,
)
    requires
        r1 == derive_key_spec(secret, salt, label, len),
        r2 == derive_key_spec(secret, salt, label, len),
    ensures
        r1 == r2,
{
}

} // verus!
