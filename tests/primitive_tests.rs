use vault_core::error::VaultError;
use vault_core::primitives::{derive_key, hash_blake3, hash_sha3_256, random_bytes, secure_random, secure_zero};

fn hex(b: &[u8]) -> String {
    b.iter().map(|x| format!("{:02x}", x)).collect()
}

#[test]
fn sha3_known_vector() {
    assert_eq!(hex(&hash_sha3_256(b"abc")), "3a985da74fe225b2045c172d6bd390bd855f086e3e9d525b46bfe24511431532");
    assert_eq!(hex(&hash_sha3_256(b"")), "a7ffc6f8bf1ed76651c14756a061d662f580ff4de43b49fa82d80a4b80f8434a");
}

#[test]
fn blake3_known_vector() {
    assert_eq!(hex(&hash_blake3(b"")), "af1349b9f5f9a1a6a0404dea36dcc9499bcb25c9adc112b7cc9a93cae41f3262");
}

#[test]
fn kdf_is_deterministic() {
    let a = derive_key(b"secret", b"salt", b"label", 32).unwrap();
    let b = derive_key(b"secret", b"salt", b"label", 32).unwrap();
    assert_eq!(a, b);
    assert_eq!(a.len(), 32);
    let long = derive_key(b"secret", b"salt", b"label", 100).unwrap();
    assert_eq!(long.len(), 100);
    assert_eq!(&long[..32], &a[..]);
}

#[test]
fn kdf_label_changes_output_like_independent() {
    let mut total = 0u32;
    let trials = 64;
    for i in 0..trials {
        let secret = vec![i as u8; 32];
        let a = derive_key(&secret, b"", b"label-a", 32).unwrap();
        let b = derive_key(&secret, b"", b"label-b", 32).unwrap();
        assert_ne!(a, b);
        total += a.iter().zip(b.iter()).map(|(x, y)| (x ^ y).count_ones()).sum::<u32>();
    }
    let mean = total as f64 / trials as f64;
    assert!(mean > 100.0 && mean < 156.0, "mean distance {}", mean);
}

#[test]
fn kdf_rejects_bad_sizes() {
    assert_eq!(derive_key(b"", b"s", b"l", 32), Err(VaultError::InvalidArgument));
    assert_eq!(derive_key(b"k", b"s", b"l", 0), Err(VaultError::InvalidArgument));
    assert_eq!(derive_key(b"k", b"s", b"l", 8161), Err(VaultError::InvalidArgument));
    assert_eq!(derive_key(b"k", b"s", b"l", 8160).unwrap().len(), 8160);
}

#[test]
fn random_fills_and_differs() {
    let a = random_bytes(64).unwrap();
    let b = random_bytes(64).unwrap();
    assert_eq!(a.len(), 64);
    assert_ne!(a, b);
    let mut buf = vec![0u8; 0];
    assert_eq!(secure_random(&mut buf), Ok(()));
    let mut buf2 = vec![0u8; 48];
    secure_random(&mut buf2).unwrap();
    assert!(buf2.iter().any(|x| *x != 0));
}

#[test]
fn secure_zero_clears_all() {
    let mut buf = vec![0xffu8; 100];
    secure_zero(&mut buf);
    assert_eq!(buf, vec![0u8; 100]);
}

#[test]
fn error_codes_distinct_and_negative() {
    let all = [
        VaultError::InvalidArgument,
        VaultError::RngFailure,
        VaultError::SignatureInvalid,
        VaultError::AuthenticationFailed,
        VaultError::EncodingInvalid,
        VaultError::InternalFailure,
    ];
    let codes: Vec<i32> = all.iter().map(|e| e.code()).collect();
    assert_eq!(codes, vec![-1, -2, -3, -4, -5, -6]);
    assert_eq!(VaultError::AuthenticationFailed.message(), "authentication failed");
}
