use vault_core::agreement::{diffie_hellman, initiate, initiate_with, respond, PreKeyBundle};
use vault_core::error::VaultError;
use vault_core::kem::{pq_decapsulate, pq_encapsulate, pq_encapsulate_with, pq_keygen, pq_keypair_from_seeds};
use vault_core::keys::{
    generate_identity_keypair, generate_onetime_prekey, generate_signed_prekey, public_key_of, sign,
    verify_signed_prekey,
};

struct Responder {
    ik: vault_core::keys::AsymmetricKeyPair,
    spk: vault_core::keys::SignedPreKey,
    opk: vault_core::keys::AsymmetricKeyPair,
    pq: vault_core::kem::PostQuantumKeyPair,
}

fn responder() -> Responder {
    let ik = generate_identity_keypair().unwrap();
    let spk = generate_signed_prekey(&ik.private, 1_700_000_000).unwrap();
    let opk = generate_onetime_prekey().unwrap();
    let pq = pq_keygen().unwrap();
    Responder { ik, spk, opk, pq }
}

fn bundle(r: &Responder, with_opk: bool) -> PreKeyBundle {
    PreKeyBundle {
        identity_public: r.ik.public.clone(),
        signed_prekey_public: r.spk.keypair.public.clone(),
        signed_prekey_signature: r.spk.signature.clone(),
        one_time_prekey_public: if with_opk { Some(r.opk.public.clone()) } else { None },
        pq_public: r.pq.public.clone(),
    }
}

#[test]
fn agreement_symmetry_with_one_time_prekey() {
    let a = generate_identity_keypair().unwrap();
    let b = responder();
    let h = initiate(&a.private, &bundle(&b, true)).unwrap();
    let s = respond(
        &b.ik.private,
        &b.spk.keypair.private,
        Some(&b.opk.private),
        &b.pq.private,
        &a.public,
        &h.ephemeral_public,
        &h.pq_ciphertext,
    )
    .unwrap();
    assert_eq!(h.secrets.shared_secret, s.shared_secret);
    assert_eq!(h.secrets.root_key, s.root_key);
    assert_eq!(s.shared_secret.len(), 32);
    assert_ne!(s.shared_secret, s.root_key);
}

#[test]
fn agreement_symmetry_without_one_time_prekey() {
    let a = generate_identity_keypair().unwrap();
    let b = responder();
    let h = initiate(&a.private, &bundle(&b, false)).unwrap();
    let s = respond(&b.ik.private, &b.spk.keypair.private, None, &b.pq.private, &a.public, &h.ephemeral_public, &h.pq_ciphertext)
        .unwrap();
    assert_eq!(h.secrets.shared_secret, s.shared_secret);
    assert_eq!(h.secrets.root_key, s.root_key);
    let with_opk = respond(
        &b.ik.private,
        &b.spk.keypair.private,
        Some(&b.opk.private),
        &b.pq.private,
        &a.public,
        &h.ephemeral_public,
        &h.pq_ciphertext,
    )
    .unwrap();
    assert_ne!(with_opk.shared_secret, h.secrets.shared_secret);
}

#[test]
fn session_root_key_drives_cipher_both_ways() {
    let a = generate_identity_keypair().unwrap();
    let b = responder();
    let h = initiate(&a.private, &bundle(&b, true)).unwrap();
    let s = respond(&b.ik.private, &b.spk.keypair.private, Some(&b.opk.private), &b.pq.private, &a.public, &h.ephemeral_public, &h.pq_ciphertext)
        .unwrap();
    let env = vault_core::cipher::encrypt(&h.secrets.root_key, 0, b"first message").unwrap();
    assert_eq!(vault_core::cipher::decrypt(&s.root_key, 0, &env).unwrap(), b"first message".to_vec());
}

#[test]
fn bad_signature_aborts_handshake() {
    let a = generate_identity_keypair().unwrap();
    let b = responder();
    let mut bad = bundle(&b, true);
    bad.signed_prekey_signature[10] ^= 1;
    assert_eq!(initiate(&a.private, &bad).err(), Some(VaultError::SignatureInvalid));
    let mut other_identity = bundle(&b, true);
    other_identity.identity_public = generate_identity_keypair().unwrap().public;
    assert_eq!(initiate(&a.private, &other_identity).err(), Some(VaultError::SignatureInvalid));
    let e = generate_identity_keypair().unwrap();
    assert_eq!(initiate_with(&a.private, &e.private, &bad, &[7u8; 32]).err(), Some(VaultError::SignatureInvalid));
}

#[test]
fn missing_or_mis_sized_inputs_are_invalid_argument() {
    let a = generate_identity_keypair().unwrap();
    let b = responder();
    let mut short = bundle(&b, true);
    short.pq_public.truncate(100);
    assert_eq!(initiate(&a.private, &short).err(), Some(VaultError::InvalidArgument));
    assert_eq!(initiate(&a.private[..31], &bundle(&b, true)).err(), Some(VaultError::InvalidArgument));
    let mut empty_sig = bundle(&b, false);
    empty_sig.signed_prekey_signature.clear();
    assert_eq!(initiate(&a.private, &empty_sig).err(), Some(VaultError::InvalidArgument));
    assert_eq!(
        respond(&b.ik.private, &b.spk.keypair.private, None, &b.pq.private, &a.public, &a.public, &[0u8; 10]).err(),
        Some(VaultError::InvalidArgument)
    );
}

#[test]
fn signed_prekey_verifies_under_identity() {
    let ik = generate_identity_keypair().unwrap();
    let spk = generate_signed_prekey(&ik.private, 5).unwrap();
    assert_eq!(spk.created_at, 5);
    assert!(verify_signed_prekey(&ik.public, &spk.keypair.public, &spk.signature));
    let other = generate_identity_keypair().unwrap();
    assert!(!verify_signed_prekey(&other.public, &spk.keypair.public, &spk.signature));
    assert!(!verify_signed_prekey(&ik.public, &spk.keypair.public, &spk.signature[..63]));
    let sig2 = sign(&ik.private, &spk.keypair.public).unwrap();
    assert_eq!(sig2, spk.signature);
}

#[test]
fn signed_prekey_rejects_bad_identity_scalar() {
    assert_eq!(generate_signed_prekey(&[0xffu8; 32], 0).err(), Some(VaultError::EncodingInvalid));
    assert_eq!(generate_signed_prekey(&[0u8; 32], 0).err(), Some(VaultError::EncodingInvalid));
    assert_eq!(generate_signed_prekey(&[1u8; 16], 0).err(), Some(VaultError::InvalidArgument));
}

#[test]
fn keypair_public_matches_private() {
    let kp = generate_identity_keypair().unwrap();
    assert_eq!(kp.public.len(), 32);
    assert_eq!(kp.private.len(), 32);
    assert_eq!(public_key_of(&kp.private).unwrap(), kp.public);
    let kp2 = generate_onetime_prekey().unwrap();
    assert_ne!(kp.private, kp2.private);
    let mut one = vec![0u8; 32];
    one[0] = 1;
    let base = public_key_of(&one).unwrap();
    assert_eq!(base[0], 0x58);
    assert!(base[1..].iter().all(|b| *b == 0x66));
}

#[test]
fn dh_is_symmetric_and_rejects_degenerate_points() {
    let a = generate_identity_keypair().unwrap();
    let b = generate_identity_keypair().unwrap();
    assert_eq!(diffie_hellman(&a.private, &b.public).unwrap(), diffie_hellman(&b.private, &a.public).unwrap());
    let mut identity = vec![0u8; 32];
    identity[0] = 1;
    assert_eq!(diffie_hellman(&a.private, &identity), Err(VaultError::EncodingInvalid));
    assert_eq!(diffie_hellman(&[0xffu8; 32], &b.public), Err(VaultError::EncodingInvalid));
    assert_eq!(diffie_hellman(&a.private, &b.public[..31]), Err(VaultError::InvalidArgument));
}

#[test]
fn pq_round_trip_and_sizes() {
    let kp = pq_keygen().unwrap();
    assert_eq!(kp.public.len(), 1184);
    assert_eq!(kp.private.len(), 2400);
    let e = pq_encapsulate(&kp.public).unwrap();
    assert_eq!(e.ciphertext.len(), 1088);
    assert_eq!(pq_decapsulate(&e.ciphertext, &kp.private).unwrap(), e.shared_secret);
    assert_eq!(pq_encapsulate(&kp.public[..100]).err(), Some(VaultError::InvalidArgument));
    assert_eq!(pq_decapsulate(&e.ciphertext[..10], &kp.private), Err(VaultError::InvalidArgument));
}

#[test]
fn pq_deterministic_from_seeds() {
    let a = pq_keypair_from_seeds(&[1u8; 32], &[2u8; 32]).unwrap();
    let b = pq_keypair_from_seeds(&[1u8; 32], &[2u8; 32]).unwrap();
    assert_eq!(a.private, b.private);
    assert_eq!(a.public, b.public);
    let e1 = pq_encapsulate_with(&a.public, &[3u8; 32]).unwrap();
    let e2 = pq_encapsulate_with(&a.public, &[3u8; 32]).unwrap();
    assert_eq!(e1.ciphertext, e2.ciphertext);
    assert_eq!(pq_decapsulate(&e1.ciphertext, &a.private).unwrap(), e1.shared_secret);
    assert_eq!(pq_keypair_from_seeds(&[1u8; 31], &[2u8; 32]).err(), Some(VaultError::InvalidArgument));
}

#[test]
fn pq_rejects_unreduced_public_key() {
    let kp = pq_keygen().unwrap();
    assert!(vault_core::kem::check_kem_public(&kp.public));
    let mut bad = kp.public.clone();
    bad[0] = 0xff;
    bad[1] = 0x0f;
    assert!(!vault_core::kem::check_kem_public(&bad));
    assert_eq!(pq_encapsulate(&bad).err(), Some(VaultError::EncodingInvalid));
    assert_eq!(pq_encapsulate_with(&bad, &[3u8; 32]).err(), Some(VaultError::EncodingInvalid));
    let a = generate_identity_keypair().unwrap();
    let b = responder();
    let mut bundle_bad = bundle(&b, true);
    bundle_bad.pq_public = bad;
    assert_eq!(initiate(&a.private, &bundle_bad).err(), Some(VaultError::EncodingInvalid));
}

#[test]
fn signing_scratch_is_erased() {
    let ik = generate_identity_keypair().unwrap();
    let mut scratch = vec![0x77u8; 40];
    let sig = vault_core::keys::sign_with_scratch(&ik.private, b"msg", &mut scratch).unwrap();
    assert!(scratch.iter().all(|b| *b == 0));
    assert_eq!(sig, sign(&ik.private, b"msg").unwrap());
    let mut scratch2 = vec![0x77u8; 8];
    assert!(vault_core::keys::sign_with_scratch(&[0u8; 32], b"msg", &mut scratch2).is_err());
    assert!(scratch2.iter().all(|b| *b == 0));
}
