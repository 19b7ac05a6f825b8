use vstd::prelude::*;
use vstd::string::StringSliceAdditionalSpecFns;
use crate::error::VaultError;
use crate::primitives::{all_zero, append_bytes, copy_into, hkdf_of, secure_zero, zeros};
use crate::primitives::derive_key;
use chacha20poly1305::aead::{Aead, KeyInit};

verus! {

/// Length of a root key and of a message key.
pub const ROOT_KEY_LEN: usize = 32;

/// Length of an AEAD nonce.
pub const NONCE_LEN: usize = 12;

/// Length of the session-wide part of a nonce; the counter fills the rest.
pub const NONCE_PREFIX_LEN: usize = 4;

/// Length of the authentication tag.
pub const TAG_LEN: usize = 16;

/// Largest plaintext the cipher accepts (1 GiB).
pub const MAX_PLAINTEXT_LEN: usize = 1073741824;

/// Context label of per-message keys.
pub const MESSAGE_KEY_LABEL: &'static str = "VaultMessenger-message-key";

/// Context label of the session's nonce prefix.
pub const NONCE_PREFIX_LABEL: &'static str = "VaultMessenger-nonce-prefix";

/// ChaCha20-Poly1305 encryption of `pt` (no associated data): ciphertext then tag.
pub uninterp spec fn seal_of(key: Seq<u8>, nonce: Seq<u8>, pt: Seq<u8>) -> Seq<u8>;

/// The eight little-endian bytes of a counter.
pub open spec fn counter_bytes(c: u64) -> Seq<u8> {
    seq![
        c as u8,
        (c >> 8u64) as u8,
        (c >> 16u64) as u8,
        (c >> 24u64) as u8,
        (c >> 32u64) as u8,
        (c >> 40u64) as u8,
        (c >> 48u64) as u8,
        (c >> 56u64) as u8,
    ]
}

/// The key of message `c` under `root`.
pub open spec fn message_key_spec(root: Seq<u8>, c: u64) -> Seq<u8> {
    hkdf_of(root, counter_bytes(c), MESSAGE_KEY_LABEL.spec_bytes(), ROOT_KEY_LEN as nat)
}

/// The session-wide nonce prefix derived from `root`.
pub open spec fn nonce_prefix_spec(root: Seq<u8>) -> Seq<u8> {
    Seq::new(
        NONCE_PREFIX_LEN as nat,
        |i: int| hkdf_of(root, Seq::empty(), NONCE_PREFIX_LABEL.spec_bytes(), NONCE_PREFIX_LEN as nat)[i],
    )
}

/// The nonce of message `c`: the session prefix followed by the counter.
pub open spec fn nonce_spec(root: Seq<u8>, c: u64) -> Seq<u8> {
    nonce_prefix_spec(root) + counter_bytes(c)
}

/// The envelope of plaintext `p` as message `c` under `root`: ciphertext then
/// tag. The nonce is not carried: both sides derive it from the root key and
/// the counter.
pub open spec fn envelope_spec(root: Seq<u8>, c: u64, p: Seq<u8>) -> Seq<u8> {
    seal_of(message_key_spec(root, c), nonce_spec(root, c), p)
}

/// What `decrypt` guarantees of its result `r` on `root`, `c` and `env`: a
/// mis-sized root key is an invalid argument; any other failure is the one
/// `AuthenticationFailed`; a plaintext is returned only for its own envelope,
/// and every envelope of an admissible plaintext gives that plaintext back.
pub open spec fn decrypt_post(root: Seq<u8>, c: u64, env: Seq<u8>, r: Result<Seq<u8>, VaultError>) -> bool {
    &&& root.len() != ROOT_KEY_LEN ==> r == Err::<Seq<u8>, VaultError>(VaultError::InvalidArgument)
    &&& root.len() == ROOT_KEY_LEN && r is Err ==> r == Err::<Seq<u8>, VaultError>(VaultError::AuthenticationFailed)
    &&& r is Ok ==> env == envelope_spec(root, c, r.unwrap()) && env.len() == r.unwrap().len() + TAG_LEN
    &&& root.len() == ROOT_KEY_LEN ==> forall|p: Seq<u8>|
        p.len() <= MAX_PLAINTEXT_LEN && env == #[trigger] envelope_spec(root, c, p)
            ==> r == Ok::<Seq<u8>, VaultError>(p)
}

/// Relies on chacha20poly1305::ChaCha20Poly1305::encrypt: the ciphertext
/// followed by a 16-byte tag; it fails only on inputs far longer than allowed here.
#[verifier::external_body]
fn aead_seal(key: &[u8], nonce: &[u8], pt: &[u8]) -> (r: Option<Vec<u8>>)
    requires
        key@.len() == ROOT_KEY_LEN,
        nonce@.len() == NONCE_LEN,
        pt@.len() <= MAX_PLAINTEXT_LEN,
    ensures
        r is Some,
        r.unwrap()@ == seal_of(key@, nonce@, pt@),
        r.unwrap()@.len() == pt@.len() + TAG_LEN,
{
    let cipher = chacha20poly1305::ChaCha20Poly1305::new(chacha20poly1305::Key::from_slice(key));
    cipher.encrypt(chacha20poly1305::Nonce::from_slice(nonce), pt).ok()
}

/// Relies on chacha20poly1305::ChaCha20Poly1305::decrypt: it succeeds exactly
/// on the encryptions of a plaintext, and then returns that plaintext
/// (encryption is deterministic and the tag is checked).
#[verifier::external_body]
fn aead_open(key: &[u8], nonce: &[u8], ct: &[u8]) -> (r: Option<Vec<u8>>)
    requires
        key@.len() == ROOT_KEY_LEN,
        nonce@.len() == NONCE_LEN,
    ensures
        r is Some ==> ct@ == seal_of(key@, nonce@, r.unwrap()@) && ct@.len() == r.unwrap()@.len() + TAG_LEN,
        forall|p: Seq<u8>|
            p.len() <= MAX_PLAINTEXT_LEN && #[trigger] seal_of(key@, nonce@, p) == ct@
                ==> (r is Some && r.unwrap()@ == p),
{
    let cipher = chacha20poly1305::ChaCha20Poly1305::new(chacha20poly1305::Key::from_slice(key));
    cipher.decrypt(chacha20poly1305::Nonce::from_slice(nonce), ct).ok()
}

/// The eight little-endian bytes of `c`.
pub fn counter_to_bytes(c: u64) -> (r: Vec<u8>)
    ensures
        r@ == counter_bytes(c),
{
    let mut r: Vec<u8> = Vec::new();
    r.push(c as u8);
    r.push((c >> 8u64) as u8);
    r.push((c >> 16u64) as u8);
    r.push((c >> 24u64) as u8);
    r.push((c >> 32u64) as u8);
    r.push((c >> 40u64) as u8);
    r.push((c >> 48u64) as u8);
    r.push((c >> 56u64) as u8);
    assert(r@ =~= counter_bytes(c));
    r
}

/// Writes the key of message `counter` under `root_key` into `key_out`.
fn message_key_into(root_key: &[u8], counter: u64, key_out: &mut Vec<u8>)
    requires
        root_key@.len() == ROOT_KEY_LEN,
        old(key_out)@.len() == ROOT_KEY_LEN,
    ensures
        final(key_out)@ == message_key_spec(root_key@, counter),
        final(key_out)@.len() == ROOT_KEY_LEN,
{
    let salt = counter_to_bytes(counter);
    match derive_key(root_key, salt.as_slice(), MESSAGE_KEY_LABEL.as_bytes(), ROOT_KEY_LEN) {
        Ok(mut k) => {
            copy_into(key_out, k.as_slice());
            secure_zero(&mut k);
        },
        Err(_) => {},
    }
}

/// The nonce of message `counter` under `root_key`.
pub fn message_nonce(root_key: &[u8], counter: u64) -> (r: Result<Vec<u8>, VaultError>)
    ensures
        root_key@.len() != ROOT_KEY_LEN ==> r matches Err(VaultError::InvalidArgument),
        root_key@.len() == ROOT_KEY_LEN ==> (r matches Ok(n) && n@ == nonce_spec(root_key@, counter)
            && n@.len() == NONCE_LEN),
{
    if root_key.len() != ROOT_KEY_LEN {
        return Err(VaultError::InvalidArgument);
    }
    let empty: Vec<u8> = Vec::new();
    match derive_key(root_key, empty.as_slice(), NONCE_PREFIX_LABEL.as_bytes(), NONCE_PREFIX_LEN) {
        Ok(mut n) => {
            assert(n@ =~= nonce_prefix_spec(root_key@));
            let c = counter_to_bytes(counter);
            append_bytes(&mut n, c.as_slice());
            Ok(n)
        },
        Err(e) => Err(e),
    }
}

/// Encrypts `plaintext` as message `counter` under `root_key`, materialising
/// the message key in `key_scratch` only; `key_scratch` is all zero when the
/// call returns, on every path.
pub fn encrypt_with_scratch(root_key: &[u8], counter: u64, plaintext: &[u8], key_scratch: &mut Vec<u8>) -> (r: Result<Vec<u8>, VaultError>)
    ensures
        all_zero(final(key_scratch)@),
        root_key@.len() != ROOT_KEY_LEN || plaintext@.len() > MAX_PLAINTEXT_LEN
            ==> r matches Err(VaultError::InvalidArgument),
        root_key@.len() == ROOT_KEY_LEN && plaintext@.len() <= MAX_PLAINTEXT_LEN
            ==> (r matches Ok(env) && env@ == envelope_spec(root_key@, counter, plaintext@)
                && env@.len() == plaintext@.len() + TAG_LEN),
{
    if root_key.len() != ROOT_KEY_LEN || plaintext.len() > MAX_PLAINTEXT_LEN {
        secure_zero(key_scratch);
        return Err(VaultError::InvalidArgument);
    }
    let nonce = match message_nonce(root_key, counter) {
        Ok(n) => n,
        Err(e) => {
            secure_zero(key_scratch);
            return Err(e);
        },
    };
    *key_scratch = zeros(ROOT_KEY_LEN);
    message_key_into(root_key, counter, key_scratch);
    let sealed = aead_seal(key_scratch.as_slice(), nonce.as_slice(), plaintext);
    secure_zero(key_scratch);
    match sealed {
        Some(ct) => Ok(ct),
        None => Err(VaultError::InternalFailure),
    }
}

/// Decrypts the envelope `envelope` of message `counter` under `root_key`,
/// materialising the message key in `key_scratch` only; `key_scratch` is all
/// zero when the call returns, on every path. Every failure past the key
/// check is the same `AuthenticationFailed`.
pub fn decrypt_with_scratch(root_key: &[u8], counter: u64, envelope: &[u8], key_scratch: &mut Vec<u8>) -> (r: Result<Vec<u8>, VaultError>)
    ensures
        all_zero(final(key_scratch)@),
        root_key@.len() != ROOT_KEY_LEN ==> r matches Err(VaultError::InvalidArgument),
        root_key@.len() == ROOT_KEY_LEN ==> (r is Err ==> r matches Err(VaultError::AuthenticationFailed)),
        r matches Ok(p) ==> envelope@ == envelope_spec(root_key@, counter, p@)
            && envelope@.len() == p@.len() + TAG_LEN,
        root_key@.len() == ROOT_KEY_LEN ==> forall|p: Seq<u8>|
            p.len() <= MAX_PLAINTEXT_LEN && envelope@ == #[trigger] envelope_spec(root_key@, counter, p)
                ==> (r matches Ok(q) && q@ == p),
{
    if root_key.len() != ROOT_KEY_LEN {
        secure_zero(key_scratch);
        return Err(VaultError::InvalidArgument);
    }
    let nonce = match message_nonce(root_key, counter) {
        Ok(n) => n,
        Err(e) => {
            secure_zero(key_scratch);
            return Err(e);
        },
    };
    *key_scratch = zeros(ROOT_KEY_LEN);
    message_key_into(root_key, counter, key_scratch);
    let opened = aead_open(key_scratch.as_slice(), nonce.as_slice(), envelope);
    secure_zero(key_scratch);
    match opened {
        Some(p) => Ok(p),
        None => Err(VaultError::AuthenticationFailed),
    }
}

/// Encrypts `plaintext` as message `counter` under `root_key`. The nonce and
/// message key are derived from the root key and the counter alone; the
/// envelope is the ciphertext followed by the tag.
pub fn encrypt(root_key: &[u8], counter: u64, plaintext: &[u8]) -> (r: Result<Vec<u8>, VaultError>)
    ensures
        root_key@.len() != ROOT_KEY_LEN || plaintext@.len() > MAX_PLAINTEXT_LEN
            ==> r matches Err(VaultError::InvalidArgument),
        root_key@.len() == ROOT_KEY_LEN && plaintext@.len() <= MAX_PLAINTEXT_LEN
            ==> (r matches Ok(env) && env@ == envelope_spec(root_key@, counter, plaintext@)
                && env@.len() == plaintext@.len() + TAG_LEN),
{
    let mut scratch: Vec<u8> = Vec::new();
    encrypt_with_scratch(root_key, counter, plaintext, &mut scratch)
}

/// Decrypts an envelope of message `counter` under `root_key`: an envelope
/// that `encrypt` made from `p` gives back `p`, and anything else fails with
/// `AuthenticationFailed`.
pub fn decrypt(root_key: &[u8], counter: u64, envelope: &[u8]) -> (r: Result<Vec<u8>, VaultError>)
    ensures
        decrypt_post(root_key@, counter, envelope@, crate::primitives::bytes_result(r)),
{
    let mut scratch: Vec<u8> = Vec::new();
    decrypt_with_scratch(root_key, counter, envelope, &mut scratch)
}

/// Distinct counters under one root key never share a nonce.
pub proof fn lemma_nonce_unique(root: Seq<u8>, c1: u64, c2: u64)
    requires
        c1 != c2,
    ensures
        nonce_spec(root, c1) != nonce_spec(root, c2),
{
    if nonce_spec(root, c1) == nonce_spec(root, c2) {
        let k = NONCE_PREFIX_LEN as int;
        assert(nonce_spec(root, c1).subrange(k, k + 8) =~= counter_bytes(c1));
        assert(nonce_spec(root, c2).subrange(k, k + 8) =~= counter_bytes(c2));
        assert(counter_bytes(c1) == counter_bytes(c2));
        let b1 = counter_bytes(c1);
        let b2 = counter_bytes(c2);
        assert(b1[0] == b2[0] && b1[1] == b2[1] && b1[2] == b2[2] && b1[3] == b2[3]);
        assert(b1[4] == b2[4] && b1[5] == b2[5] && b1[6] == b2[6] && b1[7] == b2[7]);
        assert(((c1 as u8 == c2 as u8) && ((c1 >> 8u64) as u8 == (c2 >> 8u64) as u8)
            && ((c1 >> 16u64) as u8 == (c2 >> 16u64) as u8) && ((c1 >> 24u64) as u8 == (c2 >> 24u64) as u8)
            && ((c1 >> 32u64) as u8 == (c2 >> 32u64) as u8) && ((c1 >> 40u64) as u8 == (c2 >> 40u64) as u8)
            && ((c1 >> 48u64) as u8 == (c2 >> 48u64) as u8) && ((c1 >> 56u64) as u8 == (c2 >> 56u64) as u8))
            ==> c1 == c2) by (bit_vector);
    }
}

/// Rejects counters that do not increase along one sending or receiving
/// direction.
pub struct CounterGuard {
    pub last: Option<u64>,
}

/// `c` may follow the last accepted counter `last`.
pub open spec fn counter_fresh(last: Option<u64>, c: u64) -> bool {
    match last {
        None => true,
        Some(l) => l < c,
    }
}

impl CounterGuard {
    /// A guard that has accepted no counter yet.
    pub fn new() -> (r: CounterGuard)
        ensures
            r.last is None,
    {
        CounterGuard { last: None }
    }

    /// Accepts `counter` and records it when it is above every counter
    /// accepted before; otherwise leaves the guard as it was.
    pub fn accept(&mut self, counter: u64) -> (r: bool)
        ensures
            r == counter_fresh(old(self).last, counter),
            r ==> final(self).last == Some(counter),
            !r ==> final(self).last == old(self).last,
    {
        let fresh = match self.last {
            None => true,
            Some(l) => l < counter,
        };
        if fresh {
            self.last = Some(counter);
        }
        fresh
    }
}

/// Encrypts like `encrypt`, with the monotonic-counter check enabled: a
/// counter not above every counter `guard` accepted before is refused, and the
/// guard only advances on success.
pub fn encrypt_checked(guard: &mut CounterGuard, root_key: &[u8], counter: u64, plaintext: &[u8]) -> (r: Result<Vec<u8>, VaultError>)
    ensures
        root_key@.len() != ROOT_KEY_LEN || plaintext@.len() > MAX_PLAINTEXT_LEN
            || !counter_fresh(old(guard).last, counter) ==> (r matches Err(VaultError::InvalidArgument)
                && final(guard).last == old(guard).last),
        root_key@.len() == ROOT_KEY_LEN && plaintext@.len() <= MAX_PLAINTEXT_LEN
            && counter_fresh(old(guard).last, counter) ==> (r matches Ok(env)
                && env@ == envelope_spec(root_key@, counter, plaintext@)
                && final(guard).last == Some(counter)),
{
    if root_key.len() != ROOT_KEY_LEN || plaintext.len() > MAX_PLAINTEXT_LEN {
        return Err(VaultError::InvalidArgument);
    }
    if !guard.accept(counter) {
        return Err(VaultError::InvalidArgument);
    }
    encrypt(root_key, counter, plaintext)
}

/// Decrypting what encryption produced gives the plaintext back: for an
/// admissible plaintext `p`, any result that `decrypt` may return on the
/// envelope of `p` is `p`.
pub proof fn lemma_round_trip(root: Seq<u8>, c: u64, p: Seq<u8>, r: Result<Seq<u8>, VaultError>)
    requires
        root.len() == ROOT_KEY_LEN,
        p.len() <= MAX_PLAINTEXT_LEN,
        decrypt_post(root, c, envelope_spec(root, c, p), r),
    ensures
        r == Ok::<Seq<u8>, VaultError>(p),
{
}

/// An envelope that differs from the envelope of `p` in any way, one bit or
/// more, never decrypts to `p`: `decrypt` returns a plaintext only together
/// with the envelope that plaintext encrypts to.
pub proof fn lemma_tampered_never_original(
    root: Seq<u8>,
    c: u64,
    p: Seq<u8>,
    tampered: Seq<u8>,
    r: Result<Seq<u8>, VaultError>,
)
    requires
        tampered != envelope_spec(root, c, p),
        decrypt_post(root, c, tampered, r),
    ensures
        r != Ok::<Seq<u8>, VaultError>(p),
{
}

} // verus!
