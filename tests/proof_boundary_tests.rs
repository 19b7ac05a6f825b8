use vault_core::boundary::{
    vault_crypto_cleanup, vault_crypto_init, vault_decrypt_message, vault_derive_key, vault_encrypt_message,
    vault_generate_identity_keypair, vault_generate_onetime_prekey, vault_generate_signed_prekey, vault_get_version,
    vault_hash_blake3, vault_hash_sha3_256, vault_pq_decapsulate, vault_pq_encapsulate, vault_pq_keygen,
    vault_secure_random, vault_secure_zero, vault_zk_generate_proof, vault_zk_verify_proof,
};
use vault_core::identity_proof::{generate_proof, generate_proof_with, verify_proof};
use vault_core::keys::generate_identity_keypair;

#[test]
fn identity_proof_verifies() {
    let kp = generate_identity_keypair().unwrap();
    let p = generate_proof(&kp.private, b"device-42").unwrap();
    assert_eq!(p.len(), 64);
    assert!(verify_proof(&p, &kp.public, b"device-42"));
    assert!(!verify_proof(&p, &kp.public, b"device-43"));
    let other = generate_identity_keypair().unwrap();
    assert!(!verify_proof(&p, &other.public, b"device-42"));
    let mut t = p.clone();
    t[40] ^= 1;
    assert!(!verify_proof(&t, &kp.public, b"device-42"));
    assert!(!verify_proof(&p[..63], &kp.public, b"device-42"));
    assert!(!verify_proof(&[], &[], b""));
}

#[test]
fn identity_proof_with_fixed_nonce_is_deterministic() {
    let kp = generate_identity_keypair().unwrap();
    let k = generate_identity_keypair().unwrap();
    let p1 = generate_proof_with(&kp.private, &k.private, b"s").unwrap();
    let p2 = generate_proof_with(&kp.private, &k.private, b"s").unwrap();
    assert_eq!(p1, p2);
    assert_eq!(&p1[..32], &k.public[..]);
    assert!(verify_proof(&p1, &kp.public, b"s"));
    assert_eq!(generate_proof(&[0xffu8; 32], b"s").err(), Some(vault_core::error::VaultError::EncodingInvalid));
}

#[test]
fn boundary_keypair_and_sizes() {
    assert_eq!(vault_crypto_init(), 0);
    vault_crypto_cleanup();
    assert_eq!(vault_get_version(), "1.0.0");
    let mut pk = vec![0u8; 32];
    let mut sk = vec![0u8; 32];
    assert_eq!(vault_generate_identity_keypair(&mut pk, &mut sk), 0);
    assert!(sk.iter().any(|b| *b != 0));
    let mut short = vec![0u8; 31];
    assert_eq!(vault_generate_onetime_prekey(&mut short, &mut sk.clone()), -1);
    assert_eq!(short, vec![0u8; 31]);
    let mut spk = vec![0u8; 32];
    let mut ssk = vec![0u8; 32];
    let mut sig = vec![0u8; 64];
    assert_eq!(vault_generate_signed_prekey(&mut spk, &mut ssk, &mut sig, &sk, 0), 0);
    assert!(vault_core::keys::verify_signed_prekey(&pk, &spk, &sig));
    let mut sig_short = vec![0u8; 63];
    assert_eq!(vault_generate_signed_prekey(&mut spk, &mut ssk, &mut sig_short, &sk, 0), -1);
}

#[test]
fn boundary_encrypt_decrypt_reports_sizes() {
    let rk = vec![9u8; 32];
    let mut out = vec![0u8; 10];
    let mut len = 0usize;
    assert_eq!(vault_encrypt_message(b"hello", &rk, 1, &mut out, &mut len), -1);
    assert_eq!(len, 5 + 16);
    assert_eq!(out, vec![0u8; 10]);
    let mut out = vec![0u8; 64];
    assert_eq!(vault_encrypt_message(b"hello", &rk, 1, &mut out, &mut len), 0);
    let mut pt = vec![0u8; 5];
    let mut plen = 0usize;
    assert_eq!(vault_decrypt_message(&out[..len], &rk, 1, &mut pt, &mut plen), 0);
    assert_eq!(plen, 5);
    assert_eq!(pt, b"hello".to_vec());
    let mut bad = out[..len].to_vec();
    bad[20] ^= 4;
    plen = 99;
    assert_eq!(vault_decrypt_message(&bad, &rk, 1, &mut pt, &mut plen), -4);
    assert_eq!(plen, 99);
    assert_eq!(pt, b"hello".to_vec());
    let mut small = vec![1u8; 3];
    assert_eq!(vault_decrypt_message(&out[..len], &rk, 1, &mut small, &mut plen), -1);
    assert_eq!(plen, 5);
    assert_eq!(small, vec![1u8; 3]);
    assert_eq!(vault_decrypt_message(&out[..10], &rk, 1, &mut pt, &mut plen), -4);
    let mut exact = vec![0u8; 21];
    assert_eq!(vault_encrypt_message(b"hello", &rk, 2, &mut exact, &mut len), 0);
    assert_eq!(len, 21);
}

#[test]
fn boundary_hashes_random_zero_derive() {
    let mut h = vec![0u8; 32];
    assert_eq!(vault_hash_sha3_256(b"abc", &mut h), 0);
    assert_eq!(h[0], 0x3a);
    assert_eq!(vault_hash_blake3(b"", &mut h), 0);
    assert_eq!(h[0], 0xaf);
    let mut wrong = vec![0u8; 16];
    assert_eq!(vault_hash_sha3_256(b"abc", &mut wrong), -1);
    let mut r = vec![0u8; 32];
    assert_eq!(vault_secure_random(&mut r), 0);
    vault_secure_zero(&mut r);
    assert_eq!(r, vec![0u8; 32]);
    let mut k1 = vec![0u8; 32];
    let mut k2 = vec![0u8; 32];
    assert_eq!(vault_derive_key(&[1u8; 32], b"ctx", &mut k1), 0);
    assert_eq!(vault_derive_key(&[1u8; 32], b"ctx", &mut k2), 0);
    assert_eq!(k1, k2);
    assert_eq!(vault_derive_key(&[], b"ctx", &mut k2), -1);
}

#[test]
fn boundary_pq_and_proof() {
    let mut pk = vec![0u8; 1184];
    let mut sk = vec![0u8; 2400];
    assert_eq!(vault_pq_keygen(&mut pk, &mut sk), 0);
    let mut ct = vec![0u8; 1088];
    let mut ss1 = vec![0u8; 32];
    let mut ss2 = vec![0u8; 32];
    assert_eq!(vault_pq_encapsulate(&pk, &mut ct, &mut ss1), 0);
    assert_eq!(vault_pq_decapsulate(&ct, &sk, &mut ss2), 0);
    assert_eq!(ss1, ss2);
    let mut small = vec![0u8; 32];
    assert_eq!(vault_pq_keygen(&mut small, &mut sk), -1);
    let kp = generate_identity_keypair().unwrap();
    let mut proof = vec![0u8; 64];
    let mut plen = 0usize;
    assert_eq!(vault_zk_generate_proof(&kp.private, b"stmt", &mut proof, &mut plen), 0);
    let mut valid = false;
    assert_eq!(vault_zk_verify_proof(&proof[..plen], &kp.public, b"stmt", &mut valid), 0);
    assert!(valid);
    assert_eq!(vault_zk_verify_proof(&proof[..plen], &kp.public, b"other", &mut valid), 0);
    assert!(!valid);
}
