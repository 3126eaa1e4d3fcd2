//! The digest check behind `claim`, held against a known SHA-256 vector,
//! and byte-level equality.

use htlc::hashing::bytes32_eq;
use htlc::registry::Pallet;
use htlc::swap::Error;

#[test]
fn claim_digest_matches_known_sha256_vector() {
    // SHA-256("abc"), the FIPS 180-2 example vector. A claim with preimage
    // "abc" against this commitment must succeed, and only this one.
    let commitment: [u8; 32] = [
        0xba, 0x78, 0x16, 0xbf, 0x8f, 0x01, 0xcf, 0xea, 0x41, 0x41, 0x40, 0xde, 0x5d, 0xae,
        0x22, 0x23, 0xb0, 0x03, 0x61, 0xa3, 0x96, 0x17, 0x7a, 0x9c, 0xb4, 0x10, 0xff, 0x61,
        0xf2, 0x00, 0x15, 0xad,
    ];
    let mut p = Pallet::new();
    assert!(p.deposit(1, 100));
    assert_eq!(p.create_swap(1, 1, commitment, 2, 50, 60), Ok(50));
    assert_eq!(p.claim(2, 1, b"abd".to_vec()), Err(Error::InvalidPreimage));
    assert_eq!(p.claim(2, 1, commitment.to_vec()), Err(Error::InvalidPreimage));
    assert_eq!(p.claim(2, 1, b"abc".to_vec()), Ok(()));
    assert_eq!(p.balance(2).free, 60);
}

#[test]
fn bytes32_eq_compares_exactly() {
    let a = [7u8; 32];
    let mut b = [7u8; 32];
    assert!(bytes32_eq(&a, &b));
    b[31] = 8;
    assert!(!bytes32_eq(&a, &b));
}
