use buildmeter::pow::{
    check_hash_difficulty, fresh_challenge, increment_byte_slice, make_challenge,
    pow_attempt_difficulty, verify_pow_solution, ProofOfWorkAlgorithm,
};
use sha2::Digest;

#[test]
fn difficulty_counts_leading_zero_bits() {
    assert_eq!(check_hash_difficulty(&[]), 0);
    assert_eq!(check_hash_difficulty(&[0x80]), 0);
    assert_eq!(check_hash_difficulty(&[0x40]), 1);
    assert_eq!(check_hash_difficulty(&[0x01]), 7);
    assert_eq!(check_hash_difficulty(&[0x00]), 8);
    assert_eq!(check_hash_difficulty(&[0x00, 0x00]), 16);
    assert_eq!(check_hash_difficulty(&[0x00, 0x20, 0xff]), 10);
    assert_eq!(check_hash_difficulty(&[0x00, 0x00, 0x00, 0x01]), 31);
    assert_eq!(check_hash_difficulty(&[0xff, 0x00]), 0);
}

#[test]
fn increment_carries_through_trailing_255s() {
    let mut data = vec![0, 0, 0];
    increment_byte_slice(&mut data);
    assert_eq!(data, vec![0, 0, 1]);
    let mut data = vec![0, 1, 255];
    increment_byte_slice(&mut data);
    assert_eq!(data, vec![0, 2, 0]);
    let mut data = vec![255, 255, 255];
    increment_byte_slice(&mut data);
    assert_eq!(data, vec![0, 0, 0]);
    let mut data: Vec<u8> = vec![];
    increment_byte_slice(&mut data);
    assert_eq!(data, Vec::<u8>::new());
}

#[test]
fn attempt_difficulty_matches_real_digest() {
    let nonce: Vec<u8> = vec![1, 2, 3];
    let postfix: Vec<u8> = vec![4, 5];
    let mut joined = nonce.clone();
    joined.extend_from_slice(&postfix);
    let digest = sha2::Sha256::digest(&joined);
    let expected = check_hash_difficulty(&digest);
    assert_eq!(pow_attempt_difficulty(&nonce, &postfix), expected);
}

#[test]
fn solving_a_challenge_by_search() {
    // Search with the counter increment until the digest clears an easy
    // difficulty, then check the verifier agrees.
    let challenge = make_challenge(vec![9, 9, 9]);
    let mut easy = challenge.clone();
    easy.difficulty = 6;
    let mut attempt = vec![0u8; 8];
    let mut found = false;
    for _ in 0..10_000 {
        increment_byte_slice(&mut attempt);
        if pow_attempt_difficulty(&easy.nonce, &attempt) >= easy.difficulty {
            found = true;
            break;
        }
    }
    assert!(found, "an easy difficulty is found within a few thousand tries");
    assert!(verify_pow_solution(&easy, &attempt));
}

#[test]
fn unsolved_attempts_are_rejected() {
    let mut challenge = make_challenge(vec![1, 2, 3, 4]);
    challenge.difficulty = 64;
    // A plain attempt essentially never clears 64 bits.
    assert!(!verify_pow_solution(&challenge, &vec![0, 0, 0]));
}

#[test]
fn fresh_challenges_have_standard_shape() {
    let c = fresh_challenge();
    assert_eq!(c.nonce.len(), 32);
    assert_eq!(c.difficulty, 10);
    assert!(matches!(c.algorithm, ProofOfWorkAlgorithm::Sha256));
    // Two draws almost surely differ.
    let d = fresh_challenge();
    assert!(c.nonce != d.nonce);
}
