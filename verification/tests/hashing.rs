use pillar::crypto::hashing::{DefaultHash, HashError, HashFunction};

const ABC_DIGEST: [u8; 32] = [
    58, 152, 93, 167, 79, 226, 37, 178, 4, 92, 23, 45, 107, 211, 144, 189, 133, 95, 8, 110, 62,
    157, 82, 91, 70, 191, 226, 69, 17, 67, 21, 50,
];

#[test]
fn default_hash_is_sha3_256() {
    let mut hasher = DefaultHash::new();
    hasher.update(b"abc");
    assert_eq!(hasher.digest(), Ok(ABC_DIGEST));
}

#[test]
fn default_hash_differs_from_its_input() {
    let input = [9u8; 32];
    let mut hasher = DefaultHash::new();
    hasher.update(&input);
    let digest = hasher.digest().unwrap();
    assert_ne!(digest, input);
}

#[test]
fn updates_concatenate() {
    let mut hasher = DefaultHash::new();
    hasher.update(b"a");
    hasher.update(b"");
    hasher.update(b"bc");
    assert_eq!(hasher.digest(), Ok(ABC_DIGEST));
}

#[test]
fn digest_without_update_fails() {
    let mut hasher = DefaultHash::new();
    assert_eq!(hasher.digest(), Err(HashError::NothingAbsorbed));
}

#[test]
fn digest_twice_fails_the_second_time() {
    let mut hasher = DefaultHash::new();
    hasher.update(b"abc");
    assert_eq!(hasher.digest(), Ok(ABC_DIGEST));
    assert_eq!(hasher.digest(), Err(HashError::NothingAbsorbed));
}

#[test]
fn engine_is_reusable_after_digest() {
    let mut hasher = DefaultHash::new();
    hasher.update(b"something else");
    assert!(hasher.digest().is_ok());
    hasher.update(b"abc");
    assert_eq!(hasher.digest(), Ok(ABC_DIGEST));
}

#[test]
fn update_with_no_bytes_counts_as_input() {
    let mut hasher = DefaultHash::new();
    hasher.update(b"");
    let empty = hasher.digest();
    assert!(empty.is_ok());
    assert_ne!(empty, Ok(ABC_DIGEST));
}
