use mining_pool::hashing::{
    block_id_for, candidate_bytes, compute_sha256, confirms_solution, digest_meets, digest_of,
    push_decimal, sweep, to_hex,
};
use sha2::{Digest, Sha256};

#[test]
fn sha256_of_abc_is_the_known_digest() {
    assert_eq!(
        compute_sha256(b"abc"),
        "ba7816bf8f01cfea414140de5dae2223b00361a396177a9cb410ff61f20015ad"
    );
}

#[test]
fn sha256_of_nothing_is_the_known_digest() {
    assert_eq!(
        compute_sha256(b""),
        "e3b0c44298fc1c149afbf4c8996fb92427ae41e4649b934ca495991b7852b855"
    );
}

#[test]
fn digest_has_thirty_two_bytes_and_is_not_its_input() {
    let input = b"abc".to_vec();
    let bytes = digest_of(&input);
    assert_eq!(bytes.len(), 32);
    assert_ne!(bytes, input);
    assert_eq!(bytes, Sha256::digest(b"abc").to_vec());
}

#[test]
fn hex_agrees_with_lower_hex_formatting() {
    let bytes = digest_of(b"block1");
    assert_eq!(to_hex(&bytes), format!("{:x}", Sha256::digest(b"block1")));
}

#[test]
fn hex_writes_two_lower_case_digits_per_byte() {
    assert_eq!(to_hex(&[0x00, 0x0f, 0xa0, 0xff, 0x9a]), "000fa0ff9a");
    assert_eq!(to_hex(&[]), "");
}

#[test]
fn decimal_digits_are_appended_without_leading_zeros() {
    let mut bytes = b"x".to_vec();
    push_decimal(&mut bytes, 0);
    assert_eq!(bytes, b"x0".to_vec());
    push_decimal(&mut bytes, 1234567890);
    assert_eq!(bytes, b"x01234567890".to_vec());
    let mut big = Vec::new();
    push_decimal(&mut big, u64::MAX);
    assert_eq!(big, b"18446744073709551615".to_vec());
}

#[test]
fn candidate_is_payload_then_nonce() {
    assert_eq!(candidate_bytes(b"abc", 0), b"abc0".to_vec());
    assert_eq!(candidate_bytes(b"abc", 42), b"abc42".to_vec());
    assert_eq!(candidate_bytes(b"", 7), b"7".to_vec());
    assert_eq!(candidate_bytes(b"block", 1000), format!("{}{}", "block", 1000).into_bytes());
}

#[test]
fn difficulty_counts_leading_zero_digits() {
    let digest = [0x00u8, 0x0f, 0xff];
    assert!(digest_meets(&digest, 0));
    assert!(digest_meets(&digest, 1));
    assert!(digest_meets(&digest, 2));
    assert!(digest_meets(&digest, 3));
    assert!(!digest_meets(&digest, 4));
    assert!(!digest_meets(&digest, 5));
}

#[test]
fn difficulty_beyond_the_digest_is_never_met() {
    let zeros = [0u8; 32];
    assert!(digest_meets(&zeros, 64));
    assert!(!digest_meets(&zeros, 65));
    assert!(!digest_meets(&zeros, u32::MAX));
    assert!(digest_meets(&[], 0));
    assert!(!digest_meets(&[], 1));
}

#[test]
fn difficulty_agrees_with_the_prefix_of_the_hex_text() {
    for nonce in 0..200u64 {
        let digest = digest_of(&candidate_bytes(b"abc", nonce));
        let text = to_hex(&digest);
        for difficulty in 0..4u32 {
            let zeros = "0".repeat(difficulty as usize);
            assert_eq!(digest_meets(&digest, difficulty), text.starts_with(&zeros));
        }
    }
}

#[test]
fn block_id_is_the_prefix_and_the_hex_digest() {
    let digest = digest_of(b"abc0");
    assert_eq!(block_id_for(&digest), format!("block-{}", compute_sha256(b"abc0")));
    assert_eq!(block_id_for(&[0xab]), "block-ab");
}

#[test]
fn a_solution_is_confirmed_and_a_wrong_one_is_not() {
    let id = block_id_for(&digest_of(b"abc5"));
    assert!(confirms_solution(b"abc", 5, 0, &id));
    assert!(!confirms_solution(b"abc", 6, 0, &id));
    assert!(!confirms_solution(b"abd", 5, 0, &id));
    assert!(!confirms_solution(b"abc", 5, 64, &id));
}

#[test]
fn a_sweep_returns_the_first_solution_in_its_range() {
    let mut first = 0u64;
    while !format!("{:x}", Sha256::digest(format!("abc{}", first).as_bytes())).starts_with("00") {
        first += 1;
    }
    assert!(first > 1);
    let digest = Sha256::digest(format!("abc{}", first).as_bytes()).to_vec();
    assert_eq!(sweep(b"abc", 2, 0, first + 1), Some((first, digest.clone())));
    assert_eq!(sweep(b"abc", 2, 0, 1_000_000), Some((first, digest.clone())));
    assert_eq!(sweep(b"abc", 2, first, 1), Some((first, digest)));
    assert_eq!(sweep(b"abc", 2, 0, first), None);
    assert_eq!(sweep(b"abc", 2, first, 0), None);
    assert_eq!(sweep(b"abc", 0, 7, 5), Some((7, Sha256::digest(b"abc7").to_vec())));
    let later = sweep(b"abc", 2, first + 1, 1_000_000).unwrap();
    assert!(later.0 > first);
    assert!(digest_meets(&later.1, 2));
}
