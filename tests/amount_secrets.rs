use blsttc::{Fr, SecretKey, SecretKeySet, SecretKeyShare};
use sn_dbc::{AmountSecrets, Error};
use std::collections::BTreeMap;

const MODULUS_LE: [u8; 32] = [
    0x01, 0x00, 0x00, 0x00, 0xff, 0xff, 0xff, 0xff, 0xfe, 0x5b, 0xfe, 0xff, 0x02, 0xa4, 0xbd, 0x53,
    0x05, 0xd8, 0xa1, 0x09, 0x08, 0xd8, 0x39, 0x33, 0x48, 0x7d, 0x9d, 0x29, 0x53, 0xa7, 0xed, 0x73,
];

fn encoded(amount: u64, blinding: [u8; 32]) -> Vec<u8> {
    let mut v = amount.to_le_bytes().to_vec();
    v.extend_from_slice(&blinding);
    v
}

#[test]
fn bytes_round_trip_random_blinding() {
    for amount in [0u64, 1, 600, 1000, u64::MAX] {
        let s = AmountSecrets::from_amount(amount);
        let bytes = s.to_bytes();
        assert_eq!(bytes.len(), 40);
        assert_eq!(&bytes[0..8], &amount.to_le_bytes());
        let back = AmountSecrets::from_bytes_ref(&bytes).unwrap();
        assert_eq!(back.amount(), amount);
        assert_eq!(back.blinding_factor(), s.blinding_factor());
        assert_eq!(back.to_bytes(), bytes);
    }
}

#[test]
fn random_blinding_differs() {
    let a = AmountSecrets::from_amount(5);
    let b = AmountSecrets::from_amount(5);
    assert_ne!(a.to_bytes(), b.to_bytes());
}

#[test]
fn decode_exact_values() {
    let mut blinding = [0u8; 32];
    blinding[0] = 9;
    let bytes = encoded(0x0807_0605_0403_0201, blinding);
    assert_eq!(&bytes[0..8], &[1, 2, 3, 4, 5, 6, 7, 8]);
    let s = AmountSecrets::from_bytes_ref(&bytes).unwrap();
    assert_eq!(s.amount(), 0x0807_0605_0403_0201);
    assert_eq!(s.blinding_factor(), blinding);
    assert_eq!(s.to_bytes(), bytes);
}

#[test]
fn decode_rejects_wrong_lengths() {
    for len in [0usize, 1, 8, 32, 39, 41, 80] {
        let bytes = vec![0u8; len];
        assert!(matches!(
            AmountSecrets::from_bytes_ref(&bytes),
            Err(Error::AmountSecretsBytesInvalid)
        ));
    }
}

#[test]
fn decode_rejects_non_canonical_blinding() {
    let bytes = encoded(7, [0xff; 32]);
    assert!(matches!(
        AmountSecrets::from_bytes_ref(&bytes),
        Err(Error::AmountSecretsBytesInvalid)
    ));
    let at_modulus = encoded(7, MODULUS_LE);
    assert!(matches!(
        AmountSecrets::from_bytes_ref(&at_modulus),
        Err(Error::AmountSecretsBytesInvalid)
    ));
}

#[test]
fn decode_accepts_largest_scalar() {
    let mut below = MODULUS_LE;
    below[0] = 0x00;
    let s = AmountSecrets::from_bytes_ref(&encoded(3, below)).unwrap();
    assert_eq!(s.blinding_factor(), below);
}

#[test]
fn from_fixed_bytes() {
    let mut arr = [0u8; 40];
    arr[0] = 0xe8;
    arr[1] = 0x03;
    arr[8] = 1;
    let s = AmountSecrets::from_bytes(arr);
    assert_eq!(s.amount(), 1000);
    assert_eq!(s.to_bytes(), arr.to_vec());
}

#[test]
fn from_commitment_secret_keeps_values() {
    let s = AmountSecrets::from_commitment_secret(42, &Fr::from(7u64));
    assert_eq!(s.amount(), 42);
    let mut expected = [0u8; 32];
    expected[0] = 7;
    assert_eq!(s.blinding_factor(), expected);
}

#[test]
fn from_decrypted_outcomes() {
    assert!(matches!(
        AmountSecrets::from_decrypted(None),
        Err(Error::DecryptionBySecretKeyFailed)
    ));
    assert!(matches!(
        AmountSecrets::from_decrypted(Some(vec![0u8; 39])),
        Err(Error::AmountSecretsBytesInvalid)
    ));
    let s = AmountSecrets::from_decrypted(Some(encoded(11, [0u8; 32]))).unwrap();
    assert_eq!(s.amount(), 11);
}

#[test]
fn from_combined_outcomes() {
    assert!(matches!(
        AmountSecrets::from_combined(Err(blsttc::Error::DuplicateEntry)),
        Err(Error::DecryptionBySharesFailed(blsttc::Error::DuplicateEntry))
    ));
    let s = AmountSecrets::from_combined(Ok(encoded(12, [0u8; 32]))).unwrap();
    assert_eq!(s.amount(), 12);
}

#[test]
fn encrypt_decrypt_with_secret_key() {
    let sk = SecretKey::random();
    let s = AmountSecrets::from_amount(777);
    let ct = s.encrypt(&sk.public_key());
    let back = AmountSecrets::decrypt_with_secret_key(&sk, &ct).unwrap();
    assert_eq!(back.amount(), 777);
    assert_eq!(back.to_bytes(), s.to_bytes());
}

#[test]
fn decrypt_with_wrong_key_does_not_recover() {
    let sk = SecretKey::random();
    let other = SecretKey::random();
    let s = AmountSecrets::from_amount(777);
    let ct = s.encrypt(&sk.public_key());
    match AmountSecrets::decrypt_with_secret_key(&other, &ct) {
        Ok(back) => assert_ne!(back.to_bytes(), s.to_bytes()),
        Err(e) => assert!(matches!(
            e,
            Error::AmountSecretsBytesInvalid | Error::DecryptionBySecretKeyFailed
        )),
    }
}

#[test]
fn decrypt_with_key_set() {
    let mut rng = blsttc::rand::thread_rng();
    let sks = SecretKeySet::random(2, &mut rng);
    let s = AmountSecrets::from_amount(31);
    let ct = s.encrypt(&sks.public_keys().public_key());
    let back = AmountSecrets::decrypt_with_secret_key_set(&sks, &ct).unwrap();
    assert_eq!(back.to_bytes(), s.to_bytes());
}

fn shares(sks: &SecretKeySet, indices: &[u64]) -> BTreeMap<u64, SecretKeyShare> {
    let mut m = BTreeMap::new();
    for i in indices {
        m.insert(*i, sks.secret_key_share(*i));
    }
    m
}

#[test]
fn threshold_shares_recover() {
    let mut rng = blsttc::rand::thread_rng();
    let sks = SecretKeySet::random(2, &mut rng);
    let pks = sks.public_keys();
    let s = AmountSecrets::from_amount(600);
    let ct = s.encrypt(&pks.public_key());
    for indices in [[0u64, 1, 2], [1, 3, 4], [0, 2, 4]] {
        let back = AmountSecrets::decrypt_with_shares(&pks, &shares(&sks, &indices), &ct).unwrap();
        assert_eq!(back.amount(), 600);
        assert_eq!(back.to_bytes(), s.to_bytes());
    }
}

#[test]
fn too_few_shares_fail() {
    let mut rng = blsttc::rand::thread_rng();
    let sks = SecretKeySet::random(2, &mut rng);
    let pks = sks.public_keys();
    let s = AmountSecrets::from_amount(600);
    let ct = s.encrypt(&pks.public_key());
    let r = AmountSecrets::decrypt_with_shares(&pks, &shares(&sks, &[0, 1]), &ct);
    assert!(matches!(
        r,
        Err(Error::DecryptionBySharesFailed(blsttc::Error::NotEnoughShares { .. }))
    ));
}

#[test]
fn decryption_shares_keep_indices() {
    let mut rng = blsttc::rand::thread_rng();
    let sks = SecretKeySet::random(1, &mut rng);
    let s = AmountSecrets::from_amount(9);
    let ct = s.encrypt(&sks.public_keys().public_key());
    let ds = AmountSecrets::decryption_shares(&shares(&sks, &[3, 5]), &ct);
    assert_eq!(ds.keys().copied().collect::<Vec<u64>>(), vec![3, 5]);
    let back = AmountSecrets::decrypt_with_decryption_shares(&sks.public_keys(), &ds, &ct).unwrap();
    assert_eq!(back.amount(), 9);
}

#[test]
fn encrypt_to_owner_decrypts() {
    let sk = SecretKey::random();
    let s = AmountSecrets::from_amount(400);
    let ct = s.encrypt_to_owner_of(&sk);
    assert_eq!(sk.decrypt(&ct), Some(s.to_bytes()));
    let back = AmountSecrets::decrypt_with_secret_key(&sk, &ct).unwrap();
    assert_eq!(back.to_bytes(), s.to_bytes());
}

#[test]
fn key_set_path_matches_master_key() {
    let mut rng = blsttc::rand::thread_rng();
    let sks = SecretKeySet::random(3, &mut rng);
    let s = AmountSecrets::from_amount(123);
    let ct = s.encrypt(&sks.public_keys().public_key());
    let a = AmountSecrets::decrypt_with_secret_key_set(&sks, &ct).unwrap();
    let b = AmountSecrets::decrypt_with_secret_key(&sks.secret_key(), &ct).unwrap();
    assert_eq!(a.to_bytes(), b.to_bytes());
    assert_eq!(a.amount(), 123);
}

#[test]
fn decryption_shares_are_share_decryptions() {
    let mut rng = blsttc::rand::thread_rng();
    let sks = SecretKeySet::random(1, &mut rng);
    let s = AmountSecrets::from_amount(4);
    let ct = s.encrypt(&sks.public_keys().public_key());
    let ds = AmountSecrets::decryption_shares(&shares(&sks, &[2, 6]), &ct);
    for i in [2u64, 6] {
        assert_eq!(ds[&i], sks.secret_key_share(i).decrypt_share_no_verify(&ct));
    }
    let via_keys =
        AmountSecrets::decrypt_with_shares(&sks.public_keys(), &shares(&sks, &[2, 6]), &ct).unwrap();
    let via_shares =
        AmountSecrets::decrypt_with_decryption_shares(&sks.public_keys(), &ds, &ct).unwrap();
    assert_eq!(via_keys.to_bytes(), via_shares.to_bytes());
}

#[test]
fn from_commitment_secret_keeps_random_scalar() {
    let mut rng = blsttc::rand::thread_rng();
    let fr = <Fr as blsttc::group::ff::Field>::random(&mut rng);
    let s = AmountSecrets::from_commitment_secret(8, &fr);
    assert_eq!(s.blinding_factor(), fr.to_bytes_le());
    let back = AmountSecrets::from_bytes_ref(&s.to_bytes()).unwrap();
    assert_eq!(back.blinding_factor(), fr.to_bytes_le());
}
