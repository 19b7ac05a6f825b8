//! The status-code interface: every operation takes caller-sized buffers,
//! returns zero or a negative error code, and either fills all of its outputs
//! or leaves them untouched.
use vstd::prelude::*;
use crate::error::{error_code_spec, VaultError, STATUS_OK};
use crate::cipher::{decrypt, encrypt, envelope_spec, ROOT_KEY_LEN, TAG_LEN, MAX_PLAINTEXT_LEN};
use crate::identity_proof::{generate_proof, verify_proof, verify_spec, PROOF_LEN};
use crate::kem::{kem_public_well_formed, kem_private_of, kem_decaps_of, kem_public_of, pq_decapsulate, pq_encapsulate, pq_keygen, PQ_CIPHERTEXT_LEN, PQ_PRIVATE_LEN, PQ_PUBLIC_LEN, PQ_SHARED_LEN};
use crate::keys::{drawn_from_some_wide, generate_identity_keypair, generate_onetime_prekey, generate_signed_prekey, public_of, signature_valid, valid_private, KEY_LEN, SIGNATURE_LEN};
use crate::primitives::{all_zero, blake3_of, copy_into, derive_key, hash_blake3, hash_sha3_256, hkdf_of, secure_random, secure_zero, sha3_256_of, DIGEST_LEN, MAX_KDF_OUTPUT};

verus! {

/// The library's version string.
pub const VERSION: &'static str = "1.0.0";

/// Writes `src` over the first bytes of `out`, leaving the rest as it was.
fn write_prefix(out: &mut Vec<u8>, src: &[u8])
    requires
        src@.len() <= old(out)@.len(),
    ensures
        final(out)@.len() == old(out)@.len(),
        final(out)@.subrange(0, src@.len() as int) == src@,
        final(out)@.subrange(src@.len() as int, old(out)@.len() as int)
            == old(out)@.subrange(src@.len() as int, old(out)@.len() as int),
{
    let n = src.len();
    let mut i: usize = 0;
    while i < n
        invariant
            n == src@.len(),
            n <= old(out)@.len(),
            i <= n,
            out@.len() == old(out)@.len(),
            forall|j: int| 0 <= j < i ==> out@[j] == src@[j],
            forall|j: int| n <= j < out@.len() ==> out@[j] == old(out)@[j],
        decreases n - i,
    {
        out.set(i, src[i]);
        i = i + 1;
    }
    assert(out@.subrange(0, n as int) =~= src@);
    assert(out@.subrange(n as int, out@.len() as int) =~= old(out)@.subrange(n as int, out@.len() as int));
}

/// Prepares the library for use; there is no global state to set up.
pub fn vault_crypto_init() -> (r: i32)
    ensures
        r == STATUS_OK,
{
    STATUS_OK
}

/// Releases library resources; there are none to release.
pub fn vault_crypto_cleanup() {
}

/// The library's version string.
pub fn vault_get_version() -> (r: &'static str)
    ensures
        r@ == VERSION@,
{
    VERSION
}

/// Generates a key pair into two 32-byte buffers.
fn keypair_into(
    public_key_out: &mut Vec<u8>,
    private_key_out: &mut Vec<u8>,
    onetime: bool,
) -> (r: i32)
    ensures
        old(public_key_out)@.len() != KEY_LEN || old(private_key_out)@.len() != KEY_LEN
            ==> r == error_code_spec(VaultError::InvalidArgument),
        r == STATUS_OK ==> valid_private(final(private_key_out)@)
            && final(public_key_out)@ == public_of(final(private_key_out)@)
            && drawn_from_some_wide(final(private_key_out)@),
        r != STATUS_OK ==> final(public_key_out)@ == old(public_key_out)@
            && final(private_key_out)@ == old(private_key_out)@,
        old(public_key_out)@.len() == KEY_LEN && old(private_key_out)@.len() == KEY_LEN && r != STATUS_OK
            ==> r == error_code_spec(VaultError::RngFailure),
{
    if public_key_out.len() != KEY_LEN || private_key_out.len() != KEY_LEN {
        return VaultError::InvalidArgument.code();
    }
    let generated = if onetime { generate_onetime_prekey() } else { generate_identity_keypair() };
    match generated {
        Ok(mut kp) => {
            copy_into(public_key_out, kp.public.as_slice());
            copy_into(private_key_out, kp.private.as_slice());
            secure_zero(&mut kp.private);
            STATUS_OK
        },
        Err(e) => e.code(),
    }
}

/// Generates an identity key pair into two 32-byte buffers.
pub fn vault_generate_identity_keypair(public_key_out: &mut Vec<u8>, private_key_out: &mut Vec<u8>) -> (r: i32)
    ensures
        old(public_key_out)@.len() != KEY_LEN || old(private_key_out)@.len() != KEY_LEN
            ==> r == error_code_spec(VaultError::InvalidArgument),
        r == STATUS_OK ==> valid_private(final(private_key_out)@)
            && final(public_key_out)@ == public_of(final(private_key_out)@)
            && drawn_from_some_wide(final(private_key_out)@),
        r != STATUS_OK ==> final(public_key_out)@ == old(public_key_out)@
            && final(private_key_out)@ == old(private_key_out)@,
        old(public_key_out)@.len() == KEY_LEN && old(private_key_out)@.len() == KEY_LEN && r != STATUS_OK
            ==> r == error_code_spec(VaultError::RngFailure),
{
    keypair_into(public_key_out, private_key_out, false)
}

/// Generates a one-time prekey pair into two 32-byte buffers.
pub fn vault_generate_onetime_prekey(public_key_out: &mut Vec<u8>, private_key_out: &mut Vec<u8>) -> (r: i32)
    ensures
        old(public_key_out)@.len() != KEY_LEN || old(private_key_out)@.len() != KEY_LEN
            ==> r == error_code_spec(VaultError::InvalidArgument),
        r == STATUS_OK ==> valid_private(final(private_key_out)@)
            && final(public_key_out)@ == public_of(final(private_key_out)@)
            && drawn_from_some_wide(final(private_key_out)@),
        r != STATUS_OK ==> final(public_key_out)@ == old(public_key_out)@
            && final(private_key_out)@ == old(private_key_out)@,
        old(public_key_out)@.len() == KEY_LEN && old(private_key_out)@.len() == KEY_LEN && r != STATUS_OK
            ==> r == error_code_spec(VaultError::RngFailure),
{
    keypair_into(public_key_out, private_key_out, true)
}

/// Generates a prekey pair signed by `identity_private_key` into 32-, 32- and
/// 64-byte buffers.
pub fn vault_generate_signed_prekey(
    public_key_out: &mut Vec<u8>,
    private_key_out: &mut Vec<u8>,
    signature_out: &mut Vec<u8>,
    identity_private_key: &[u8],
    created_at: u64,
) -> (r: i32)
    ensures
        old(public_key_out)@.len() != KEY_LEN || old(private_key_out)@.len() != KEY_LEN
            || old(signature_out)@.len() != SIGNATURE_LEN || identity_private_key@.len() != KEY_LEN
            ==> r == error_code_spec(VaultError::InvalidArgument),
        identity_private_key@.len() == KEY_LEN && !valid_private(identity_private_key@)
            && old(public_key_out)@.len() == KEY_LEN && old(private_key_out)@.len() == KEY_LEN
            && old(signature_out)@.len() == SIGNATURE_LEN
            ==> r == error_code_spec(VaultError::EncodingInvalid),
        r == STATUS_OK ==> valid_private(final(private_key_out)@)
            && final(public_key_out)@ == public_of(final(private_key_out)@)
            && signature_valid(public_of(identity_private_key@), final(public_key_out)@, final(signature_out)@)
            && drawn_from_some_wide(final(private_key_out)@),
        r != STATUS_OK ==> final(public_key_out)@ == old(public_key_out)@
            && final(private_key_out)@ == old(private_key_out)@ && final(signature_out)@ == old(signature_out)@,
{
    if public_key_out.len() != KEY_LEN || private_key_out.len() != KEY_LEN
        || signature_out.len() != SIGNATURE_LEN || identity_private_key.len() != KEY_LEN {
        return VaultError::InvalidArgument.code();
    }
    match generate_signed_prekey(identity_private_key, created_at) {
        Ok(mut spk) => {
            copy_into(public_key_out, spk.keypair.public.as_slice());
            copy_into(private_key_out, spk.keypair.private.as_slice());
            copy_into(signature_out, spk.signature.as_slice());
            secure_zero(&mut spk.keypair.private);
            STATUS_OK
        },
        Err(e) => e.code(),
    }
}

/// Encrypts `plaintext` as message `counter` under `root_key` into the first
/// bytes of `ciphertext_out`; `ciphertext_len_out` receives the envelope's
/// length, also when the buffer is too small for it.
pub fn vault_encrypt_message(
    plaintext: &[u8],
    root_key: &[u8],
    counter: u64,
    ciphertext_out: &mut Vec<u8>,
    ciphertext_len_out: &mut usize,
) -> (r: i32)
    ensures
        root_key@.len() != ROOT_KEY_LEN || plaintext@.len() > MAX_PLAINTEXT_LEN
            ==> r == error_code_spec(VaultError::InvalidArgument) && *final(ciphertext_len_out) == *old(ciphertext_len_out),
        root_key@.len() == ROOT_KEY_LEN && plaintext@.len() <= MAX_PLAINTEXT_LEN
            ==> *final(ciphertext_len_out) == plaintext@.len() + TAG_LEN,
        root_key@.len() == ROOT_KEY_LEN && plaintext@.len() <= MAX_PLAINTEXT_LEN
            && old(ciphertext_out)@.len() < plaintext@.len() + TAG_LEN
            ==> r == error_code_spec(VaultError::InvalidArgument),
        r == STATUS_OK ==> final(ciphertext_out)@.len() == old(ciphertext_out)@.len()
            && final(ciphertext_out)@.subrange(0, *final(ciphertext_len_out) as int)
                == envelope_spec(root_key@, counter, plaintext@)
            && final(ciphertext_out)@.subrange(*final(ciphertext_len_out) as int, old(ciphertext_out)@.len() as int)
                == old(ciphertext_out)@.subrange(*final(ciphertext_len_out) as int, old(ciphertext_out)@.len() as int),
        r != STATUS_OK ==> final(ciphertext_out)@ == old(ciphertext_out)@,
        root_key@.len() == ROOT_KEY_LEN && plaintext@.len() <= MAX_PLAINTEXT_LEN
            && old(ciphertext_out)@.len() >= plaintext@.len() + TAG_LEN ==> r == STATUS_OK,
{
    match encrypt(root_key, counter, plaintext) {
        Ok(env) => {
            *ciphertext_len_out = env.len();
            if ciphertext_out.len() < env.len() {
                return VaultError::InvalidArgument.code();
            }
            write_prefix(ciphertext_out, env.as_slice());
            STATUS_OK
        },
        Err(e) => e.code(),
    }
}

/// Decrypts the envelope `ciphertext` of message `counter` under `root_key`
/// into the first bytes of `plaintext_out`. The plaintext is 16 bytes shorter
/// than the envelope; when the buffer is too small for an authentic
/// plaintext, `plaintext_len_out` receives its length and the plaintext is
/// erased unwritten. Every decryption failure is the same
/// `AuthenticationFailed` and writes nothing.
pub fn vault_decrypt_message(
    ciphertext: &[u8],
    root_key: &[u8],
    counter: u64,
    plaintext_out: &mut Vec<u8>,
    plaintext_len_out: &mut usize,
) -> (r: i32)
    ensures
        root_key@.len() != ROOT_KEY_LEN ==> r == error_code_spec(VaultError::InvalidArgument)
            && *final(plaintext_len_out) == *old(plaintext_len_out),
        root_key@.len() == ROOT_KEY_LEN && r == error_code_spec(VaultError::InvalidArgument)
            ==> ciphertext@.len() >= TAG_LEN && old(plaintext_out)@.len() < ciphertext@.len() - TAG_LEN
                && *final(plaintext_len_out) == ciphertext@.len() - TAG_LEN,
        root_key@.len() == ROOT_KEY_LEN && (ciphertext@.len() < TAG_LEN
            || old(plaintext_out)@.len() >= ciphertext@.len() - TAG_LEN)
            ==> (r == STATUS_OK || r == error_code_spec(VaultError::AuthenticationFailed)),
        r == error_code_spec(VaultError::AuthenticationFailed) ==> *final(plaintext_len_out) == *old(plaintext_len_out),
        r == STATUS_OK ==> ciphertext@.len() >= TAG_LEN
            && *final(plaintext_len_out) == ciphertext@.len() - TAG_LEN
            && final(plaintext_out)@.len() == old(plaintext_out)@.len()
            && ciphertext@ == envelope_spec(
                root_key@,
                counter,
                final(plaintext_out)@.subrange(0, *final(plaintext_len_out) as int),
            )
            && final(plaintext_out)@.subrange(*final(plaintext_len_out) as int, old(plaintext_out)@.len() as int)
                == old(plaintext_out)@.subrange(*final(plaintext_len_out) as int, old(plaintext_out)@.len() as int),
        r != STATUS_OK ==> final(plaintext_out)@ == old(plaintext_out)@,
        root_key@.len() == ROOT_KEY_LEN ==> forall|p: Seq<u8>|
            p.len() <= MAX_PLAINTEXT_LEN && ciphertext@ == #[trigger] envelope_spec(root_key@, counter, p)
                && p.len() <= old(plaintext_out)@.len()
                ==> r == STATUS_OK && *final(plaintext_len_out) == p.len()
                    && final(plaintext_out)@.subrange(0, p.len() as int) == p,
{
    if root_key.len() != ROOT_KEY_LEN {
        return VaultError::InvalidArgument.code();
    }
    match decrypt(root_key, counter, ciphertext) {
        Ok(mut p) => {
            *plaintext_len_out = p.len();
            if plaintext_out.len() < p.len() {
                secure_zero(&mut p);
                return VaultError::InvalidArgument.code();
            }
            write_prefix(plaintext_out, p.as_slice());
            STATUS_OK
        },
        Err(_) => VaultError::AuthenticationFailed.code(),
    }
}

/// Generates an ML-KEM-768 key pair into 1184- and 2400-byte buffers.
pub fn vault_pq_keygen(public_key_out: &mut Vec<u8>, private_key_out: &mut Vec<u8>) -> (r: i32)
    ensures
        old(public_key_out)@.len() != PQ_PUBLIC_LEN || old(private_key_out)@.len() != PQ_PRIVATE_LEN
            ==> r == error_code_spec(VaultError::InvalidArgument),
        r == STATUS_OK ==> final(public_key_out)@ == kem_public_of(final(private_key_out)@)
            && final(private_key_out)@.len() == PQ_PRIVATE_LEN
            && exists|d: Seq<u8>, z: Seq<u8>| final(private_key_out)@ == #[trigger] kem_private_of(d, z),
        old(public_key_out)@.len() == PQ_PUBLIC_LEN && old(private_key_out)@.len() == PQ_PRIVATE_LEN
            && r != STATUS_OK ==> r == error_code_spec(VaultError::RngFailure),
        r != STATUS_OK ==> final(public_key_out)@ == old(public_key_out)@
            && final(private_key_out)@ == old(private_key_out)@,
{
    if public_key_out.len() != PQ_PUBLIC_LEN || private_key_out.len() != PQ_PRIVATE_LEN {
        return VaultError::InvalidArgument.code();
    }
    match pq_keygen() {
        Ok(mut kp) => {
            copy_into(public_key_out, kp.public.as_slice());
            copy_into(private_key_out, kp.private.as_slice());
            secure_zero(&mut kp.private);
            STATUS_OK
        },
        Err(e) => e.code(),
    }
}

/// Encapsulates a fresh secret to `public_key` into 1088- and 32-byte buffers.
pub fn vault_pq_encapsulate(public_key: &[u8], ciphertext_out: &mut Vec<u8>, shared_secret_out: &mut Vec<u8>) -> (r: i32)
    ensures
        public_key@.len() != PQ_PUBLIC_LEN || old(ciphertext_out)@.len() != PQ_CIPHERTEXT_LEN
            || old(shared_secret_out)@.len() != PQ_SHARED_LEN ==> r == error_code_spec(VaultError::InvalidArgument),
        public_key@.len() == PQ_PUBLIC_LEN && old(ciphertext_out)@.len() == PQ_CIPHERTEXT_LEN
            && old(shared_secret_out)@.len() == PQ_SHARED_LEN && !kem_public_well_formed(public_key@)
            ==> r == error_code_spec(VaultError::EncodingInvalid),
        kem_public_well_formed(public_key@) && old(ciphertext_out)@.len() == PQ_CIPHERTEXT_LEN
            && old(shared_secret_out)@.len() == PQ_SHARED_LEN && r != STATUS_OK
            ==> r == error_code_spec(VaultError::RngFailure),
        r == STATUS_OK ==> exists|m: Seq<u8>|
            final(ciphertext_out)@ == #[trigger] crate::kem::kem_ciphertext_of(public_key@, m)
                && final(shared_secret_out)@ == crate::kem::kem_secret_of(public_key@, m),
        r != STATUS_OK ==> final(ciphertext_out)@ == old(ciphertext_out)@
            && final(shared_secret_out)@ == old(shared_secret_out)@,
{
    if public_key.len() != PQ_PUBLIC_LEN || ciphertext_out.len() != PQ_CIPHERTEXT_LEN
        || shared_secret_out.len() != PQ_SHARED_LEN {
        return VaultError::InvalidArgument.code();
    }
    match pq_encapsulate(public_key) {
        Ok(mut e) => {
            copy_into(ciphertext_out, e.ciphertext.as_slice());
            copy_into(shared_secret_out, e.shared_secret.as_slice());
            secure_zero(&mut e.shared_secret);
            STATUS_OK
        },
        Err(e) => e.code(),
    }
}

/// Decapsulates `ciphertext` with `private_key` into a 32-byte buffer.
pub fn vault_pq_decapsulate(ciphertext: &[u8], private_key: &[u8], shared_secret_out: &mut Vec<u8>) -> (r: i32)
    ensures
        ciphertext@.len() != PQ_CIPHERTEXT_LEN || private_key@.len() != PQ_PRIVATE_LEN
            || old(shared_secret_out)@.len() != PQ_SHARED_LEN ==> r == error_code_spec(VaultError::InvalidArgument),
        ciphertext@.len() == PQ_CIPHERTEXT_LEN && private_key@.len() == PQ_PRIVATE_LEN
            && old(shared_secret_out)@.len() == PQ_SHARED_LEN
            ==> r == STATUS_OK && final(shared_secret_out)@ == kem_decaps_of(private_key@, ciphertext@),
        r != STATUS_OK ==> final(shared_secret_out)@ == old(shared_secret_out)@,
{
    if shared_secret_out.len() != PQ_SHARED_LEN {
        return VaultError::InvalidArgument.code();
    }
    match pq_decapsulate(ciphertext, private_key) {
        Ok(mut ss) => {
            copy_into(shared_secret_out, ss.as_slice());
            secure_zero(&mut ss);
            STATUS_OK
        },
        Err(e) => e.code(),
    }
}

/// Writes the SHA3-256 digest of `data` into a 32-byte buffer.
pub fn vault_hash_sha3_256(data: &[u8], hash_out: &mut Vec<u8>) -> (r: i32)
    ensures
        old(hash_out)@.len() != DIGEST_LEN ==> r == error_code_spec(VaultError::InvalidArgument)
            && final(hash_out)@ == old(hash_out)@,
        old(hash_out)@.len() == DIGEST_LEN ==> r == STATUS_OK && final(hash_out)@ == sha3_256_of(data@)
            && final(hash_out)@.len() == DIGEST_LEN,
{
    if hash_out.len() != DIGEST_LEN {
        return VaultError::InvalidArgument.code();
    }
    let h = hash_sha3_256(data);
    copy_into(hash_out, h.as_slice());
    STATUS_OK
}

/// Writes the BLAKE3 digest of `data` into a 32-byte buffer.
pub fn vault_hash_blake3(data: &[u8], hash_out: &mut Vec<u8>) -> (r: i32)
    ensures
        old(hash_out)@.len() != DIGEST_LEN ==> r == error_code_spec(VaultError::InvalidArgument)
            && final(hash_out)@ == old(hash_out)@,
        old(hash_out)@.len() == DIGEST_LEN ==> r == STATUS_OK && final(hash_out)@ == blake3_of(data@)
            && final(hash_out)@.len() == DIGEST_LEN,
{
    if hash_out.len() != DIGEST_LEN {
        return VaultError::InvalidArgument.code();
    }
    let h = hash_blake3(data);
    copy_into(hash_out, h.as_slice());
    STATUS_OK
}

/// Fills `buffer_out` with fresh random bytes; on failure it is untouched.
pub fn vault_secure_random(buffer_out: &mut Vec<u8>) -> (r: i32)
    ensures
        final(buffer_out)@.len() == old(buffer_out)@.len(),
        r == STATUS_OK || (r == error_code_spec(VaultError::RngFailure) && final(buffer_out)@ == old(buffer_out)@),
{
    match secure_random(buffer_out) {
        Ok(()) => STATUS_OK,
        Err(e) => e.code(),
    }
}

/// Overwrites `buffer` with zeros.
pub fn vault_secure_zero(buffer: &mut Vec<u8>)
    ensures
        final(buffer)@.len() == old(buffer)@.len(),
        all_zero(final(buffer)@),
{
    secure_zero(buffer);
}

/// Derives `derived_key_out.len()` bytes from `master_key` under the
/// context label `context` (no salt).
pub fn vault_derive_key(master_key: &[u8], context: &[u8], derived_key_out: &mut Vec<u8>) -> (r: i32)
    ensures
        master_key@.len() == 0 || old(derived_key_out)@.len() == 0 || old(derived_key_out)@.len() > MAX_KDF_OUTPUT
            ==> r == error_code_spec(VaultError::InvalidArgument) && final(derived_key_out)@ == old(derived_key_out)@,
        !(master_key@.len() == 0 || old(derived_key_out)@.len() == 0 || old(derived_key_out)@.len() > MAX_KDF_OUTPUT)
            ==> r == STATUS_OK && final(derived_key_out)@ == hkdf_of(
                master_key@,
                Seq::empty(),
                context@,
                old(derived_key_out)@.len(),
            ),
{
    let empty: Vec<u8> = Vec::new();
    match derive_key(master_key, empty.as_slice(), context, derived_key_out.len()) {
        Ok(mut k) => {
            copy_into(derived_key_out, k.as_slice());
            secure_zero(&mut k);
            STATUS_OK
        },
        Err(e) => e.code(),
    }
}

/// Writes a proof of knowledge of `identity_private_key` bound to `statement`
/// into the first 64 bytes of `proof_out`; `proof_len_out` receives 64.
pub fn vault_zk_generate_proof(
    identity_private_key: &[u8],
    statement: &[u8],
    proof_out: &mut Vec<u8>,
    proof_len_out: &mut usize,
) -> (r: i32)
    ensures
        old(proof_out)@.len() < PROOF_LEN ==> r == error_code_spec(VaultError::InvalidArgument),
        identity_private_key@.len() != KEY_LEN ==> r == error_code_spec(VaultError::InvalidArgument),
        old(proof_out)@.len() >= PROOF_LEN && identity_private_key@.len() == KEY_LEN
            && !valid_private(identity_private_key@) ==> r == error_code_spec(VaultError::EncodingInvalid),
        r == STATUS_OK ==> *final(proof_len_out) == PROOF_LEN && final(proof_out)@.len() == old(proof_out)@.len()
            && exists|k: Seq<u8>| valid_private(k)
                && final(proof_out)@.subrange(0, PROOF_LEN as int)
                    == #[trigger] crate::identity_proof::proof_spec(identity_private_key@, k, statement@),
        old(proof_out)@.len() >= PROOF_LEN && valid_private(identity_private_key@) && r != STATUS_OK
            ==> r == error_code_spec(VaultError::RngFailure),
        r != STATUS_OK ==> final(proof_out)@ == old(proof_out)@ && *final(proof_len_out) == *old(proof_len_out),
        r == STATUS_OK ==> final(proof_out)@.subrange(PROOF_LEN as int, old(proof_out)@.len() as int)
            == old(proof_out)@.subrange(PROOF_LEN as int, old(proof_out)@.len() as int),
{
    if proof_out.len() < PROOF_LEN {
        return VaultError::InvalidArgument.code();
    }
    match generate_proof(identity_private_key, statement) {
        Ok(p) => {
            write_prefix(proof_out, p.as_slice());
            *proof_len_out = PROOF_LEN;
            STATUS_OK
        },
        Err(e) => e.code(),
    }
}

/// Verifies `proof` for `identity_public` and `statement` into `valid_out`;
/// malformed input is a `false` verdict, not an error.
pub fn vault_zk_verify_proof(proof: &[u8], identity_public: &[u8], statement: &[u8], valid_out: &mut bool) -> (r: i32)
    ensures
        r == STATUS_OK,
        *final(valid_out) == verify_spec(proof@, identity_public@, statement@),
{
    *valid_out = verify_proof(proof, identity_public, statement);
    STATUS_OK
}

} // verus!
