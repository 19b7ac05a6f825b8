use std::collections::HashSet;
use vault_core::cipher::{
    counter_to_bytes, decrypt, decrypt_with_scratch, encrypt, encrypt_with_scratch, message_nonce, CounterGuard,
    NONCE_LEN, TAG_LEN,
};
use vault_core::keys::keypair_from_wide;
use vault_core::error::VaultError;

fn root() -> Vec<u8> {
    (0u8..32).collect()
}

#[test]
fn round_trip_various_lengths() {
    let rk = root();
    for len in [0usize, 1, 15, 16, 17, 64, 1000, 4097] {
        let p: Vec<u8> = (0..len).map(|i| (i * 7 + 3) as u8).collect();
        let env = encrypt(&rk, 42, &p).unwrap();
        assert_eq!(env.len(), len + TAG_LEN);
        assert_eq!(decrypt(&rk, 42, &env).unwrap(), p);
    }
}

#[test]
fn envelope_is_not_plaintext() {
    let rk = root();
    let p = b"attack at dawn".to_vec();
    let env = encrypt(&rk, 1, &p).unwrap();
    assert_ne!(&env[..p.len()], &p[..]);
}

#[test]
fn every_single_bit_flip_is_rejected() {
    let rk = root();
    let env = encrypt(&rk, 9, b"hello, world").unwrap();
    for i in 0..env.len() {
        for bit in 0..8 {
            let mut t = env.clone();
            t[i] ^= 1u8 << bit;
            assert_eq!(decrypt(&rk, 9, &t), Err(VaultError::AuthenticationFailed));
        }
    }
}

#[test]
fn wrong_counter_or_key_or_truncation_fail_uniformly() {
    let rk = root();
    let env = encrypt(&rk, 5, b"payload").unwrap();
    assert_eq!(decrypt(&rk, 6, &env), Err(VaultError::AuthenticationFailed));
    let mut other = rk.clone();
    other[0] ^= 1;
    assert_eq!(decrypt(&other, 5, &env), Err(VaultError::AuthenticationFailed));
    assert_eq!(decrypt(&rk, 5, &env[..env.len() - 1]), Err(VaultError::AuthenticationFailed));
    assert_eq!(decrypt(&rk, 5, &env[..3]), Err(VaultError::AuthenticationFailed));
    assert_eq!(decrypt(&rk, 5, &[]), Err(VaultError::AuthenticationFailed));
}

#[test]
fn bad_root_key_is_invalid_argument() {
    assert_eq!(encrypt(&[1u8; 31], 0, b"x"), Err(VaultError::InvalidArgument));
    assert_eq!(decrypt(&[1u8; 33], 0, &[0u8; 40]), Err(VaultError::InvalidArgument));
    assert_eq!(encrypt(&[], 0, b"x"), Err(VaultError::InvalidArgument));
}

#[test]
fn nonces_unique_over_ten_thousand_counters() {
    let rk = root();
    let mut seen = HashSet::new();
    for c in 0u64..10_000 {
        let n = message_nonce(&rk, c).unwrap();
        assert_eq!(n.len(), NONCE_LEN);
        assert!(seen.insert(n));
    }
    let mut envs = HashSet::new();
    for c in 0u64..200 {
        let env = encrypt(&rk, c, b"same text").unwrap();
        assert!(envs.insert(env));
    }
}

#[test]
fn nonce_carries_counter_little_endian() {
    let rk = root();
    let n = message_nonce(&rk, 0x0102030405060708).unwrap();
    assert_eq!(&n[4..], &[8u8, 7, 6, 5, 4, 3, 2, 1]);
    let m = message_nonce(&rk, 77).unwrap();
    assert_eq!(&n[..4], &m[..4]);
}

#[test]
fn counter_bytes_exact() {
    assert_eq!(counter_to_bytes(0x1122334455667788), vec![0x88, 0x77, 0x66, 0x55, 0x44, 0x33, 0x22, 0x11]);
    assert_eq!(counter_to_bytes(0), vec![0u8; 8]);
    assert_eq!(counter_to_bytes(u64::MAX), vec![0xffu8; 8]);
}

#[test]
fn scratch_key_is_erased_on_success_and_error() {
    let rk = root();
    let mut scratch = vec![0xAAu8; 32];
    let env = encrypt_with_scratch(&rk, 3, b"secret", &mut scratch).unwrap();
    assert!(scratch.iter().all(|b| *b == 0));
    let mut scratch2 = vec![0x55u8; 32];
    let p = decrypt_with_scratch(&rk, 3, &env, &mut scratch2).unwrap();
    assert_eq!(p, b"secret".to_vec());
    assert!(scratch2.iter().all(|b| *b == 0));
    let mut bad = env.clone();
    let last = bad.len() - 1;
    bad[last] ^= 0x80;
    let mut scratch3 = vec![0x11u8; 32];
    assert_eq!(decrypt_with_scratch(&rk, 3, &bad, &mut scratch3), Err(VaultError::AuthenticationFailed));
    assert!(scratch3.iter().all(|b| *b == 0));
    let mut scratch4 = vec![0x22u8; 32];
    assert_eq!(encrypt_with_scratch(&[0u8; 5], 3, b"x", &mut scratch4), Err(VaultError::InvalidArgument));
    assert!(scratch4.iter().all(|b| *b == 0));
}

#[test]
fn counter_guard_requires_strict_increase() {
    let mut g = CounterGuard::new();
    assert!(g.accept(0));
    assert!(g.accept(5));
    assert!(!g.accept(5));
    assert!(!g.accept(3));
    assert!(g.accept(6));
    assert_eq!(g.last, Some(6));
}

#[test]
fn checked_encrypt_refuses_reused_counter() {
    let rk = root();
    let mut g = CounterGuard::new();
    let e1 = vault_core::cipher::encrypt_checked(&mut g, &rk, 1, b"a").unwrap();
    assert_eq!(decrypt(&rk, 1, &e1).unwrap(), b"a".to_vec());
    assert_eq!(vault_core::cipher::encrypt_checked(&mut g, &rk, 1, b"b"), Err(VaultError::InvalidArgument));
    assert_eq!(vault_core::cipher::encrypt_checked(&mut g, &[0u8; 3], 9, b"b"), Err(VaultError::InvalidArgument));
    assert_eq!(g.last, Some(1));
    assert!(vault_core::cipher::encrypt_checked(&mut g, &rk, 2, b"b").is_ok());
}

#[test]
fn envelope_is_plaintext_plus_tag() {
    let rk = root();
    assert_eq!(encrypt(&rk, 0, b"").unwrap().len(), 16);
    assert_eq!(encrypt(&rk, 0, &[7u8; 100]).unwrap().len(), 116);
    assert_eq!(decrypt(&rk, 0, &[0u8; 15]), Err(VaultError::AuthenticationFailed));
}

#[test]
fn keypair_from_wide_reduces_and_rejects_zero() {
    assert!(keypair_from_wide(&[0u8; 64]).is_none());
    assert!(keypair_from_wide(&[1u8; 63]).is_none());
    let mut w = [0u8; 64];
    w[0] = 5;
    let kp = keypair_from_wide(&w).unwrap();
    let mut five = vec![0u8; 32];
    five[0] = 5;
    assert_eq!(kp.private, five);
    assert_eq!(vault_core::keys::public_key_of(&five).unwrap(), kp.public);
    let big = keypair_from_wide(&[0xffu8; 64]).unwrap();
    assert_ne!(big.private, vec![0xffu8; 32]);
    assert!(big.private[31] < 0x20);
}
