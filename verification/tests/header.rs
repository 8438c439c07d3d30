use pillar::crypto::hashing::{DefaultHash, HashFunction};
use pillar::primitives::block::{BlockError, BlockHeader, MAX_FUTURE_SECONDS};

const ZERO: [u8; 32] = [0u8; 32];
const MINER: [u8; 32] = [7u8; 32];
const T0: u64 = 1_700_000_000;

/// The root of the tree over the leaves `[1; 32]` and `[2; 32]`.
const ROOT: [u8; 32] = [
    173, 203, 149, 131, 183, 202, 165, 58, 255, 43, 143, 78, 216, 170, 244, 7, 57, 144, 81, 177,
    180, 245, 163, 154, 162, 201, 125, 80, 105, 181, 6, 87,
];

/// The hash of `header(0, T0, 0)`: no leading zero bit.
const HASH_NONCE_0: [u8; 32] = [
    216, 229, 103, 151, 49, 190, 169, 189, 19, 148, 109, 110, 151, 231, 49, 168, 182, 123, 131,
    232, 83, 120, 160, 33, 202, 168, 83, 224, 3, 20, 232, 252,
];

/// The hash of `header(29, T0, 0)`: four leading zero bits.
const HASH_NONCE_29: [u8; 32] = [
    13, 127, 99, 184, 62, 9, 68, 132, 79, 40, 110, 28, 71, 198, 136, 0, 160, 76, 216, 205, 136,
    160, 125, 43, 91, 6, 49, 72, 95, 85, 12, 194,
];

/// The digest of the bytes `xyz` followed by the bytes of `header(29, T0, 0)`.
const HASH_XYZ_NONCE_29: [u8; 32] = [
    149, 41, 50, 89, 137, 29, 154, 191, 219, 178, 150, 21, 17, 103, 13, 125, 60, 31, 103, 191,
    209, 193, 30, 173, 157, 187, 91, 237, 51, 240, 68, 176,
];

/// The hash of `header(40, T0, 65536)`: five leading zero bits.
const HASH_DEEP_NONCE_40: [u8; 32] = [
    6, 66, 82, 183, 230, 203, 60, 45, 244, 237, 61, 5, 13, 50, 58, 166, 89, 193, 237, 56, 214,
    41, 34, 73, 46, 85, 222, 176, 248, 216, 153, 224,
];

/// The hash of `header(29, T0, 65536)`: four leading zero bits.
const HASH_DEEP_NONCE_29: [u8; 32] = [
    12, 34, 231, 12, 107, 245, 161, 228, 238, 110, 126, 197, 35, 240, 169, 2, 246, 167, 9, 246,
    215, 144, 211, 103, 91, 102, 181, 150, 226, 173, 131, 67,
];

/// The hash of `header(5, u64::MAX, 0)`: four leading zero bits.
const HASH_FAR_FUTURE: [u8; 32] = [
    11, 179, 211, 89, 10, 120, 142, 55, 130, 132, 183, 127, 67, 66, 246, 49, 63, 138, 208, 40,
    158, 89, 154, 43, 166, 66, 25, 141, 221, 150, 65, 247,
];

/// The hash of the header with nonce `T0` and timestamp 29.
const HASH_SWAPPED: [u8; 32] = [
    197, 12, 185, 101, 92, 4, 222, 193, 98, 84, 117, 241, 224, 130, 164, 154, 7, 177, 15, 56, 99,
    54, 75, 144, 168, 182, 192, 76, 177, 131, 166, 251,
];

const ABC_DIGEST: [u8; 32] = [
    58, 152, 93, 167, 79, 226, 37, 178, 4, 92, 23, 45, 107, 211, 144, 189, 133, 95, 8, 110, 62,
    157, 82, 91, 70, 191, 226, 69, 17, 67, 21, 50,
];

fn header(nonce: u64, timestamp: u64, depth: u64) -> BlockHeader {
    BlockHeader::new(ZERO, ROOT, nonce, timestamp, Some(MINER), depth)
}

#[test]
fn new_header_keeps_its_fields() {
    let header = BlockHeader::new([1u8; 32], [2u8; 32], 3, 4, Some([5u8; 32]), 6);
    assert_eq!(header.previous_hash, [1u8; 32]);
    assert_eq!(header.merkle_root, [2u8; 32]);
    assert_eq!(header.nonce, 3);
    assert_eq!(header.timestamp, 4);
    assert_eq!(header.miner_address, Some([5u8; 32]));
    assert_eq!(header.depth, 6);
}

#[test]
fn cloned_header_is_equal() {
    let first = header(29, T0, 0);
    let copy = first.clone();
    assert_eq!(copy, first);
    assert_ne!(copy, header(30, T0, 0));
}

#[test]
fn header_hash_is_the_digest_of_the_canonical_bytes() {
    assert_eq!(header(0, T0, 0).hash(&mut DefaultHash::new()), Ok(HASH_NONCE_0));
    assert_eq!(header(29, T0, 0).hash(&mut DefaultHash::new()), Ok(HASH_NONCE_29));
    assert_eq!(header(40, T0, 65536).hash(&mut DefaultHash::new()), Ok(HASH_DEEP_NONCE_40));
    assert_eq!(header(5, u64::MAX, 0).hash(&mut DefaultHash::new()), Ok(HASH_FAR_FUTURE));
}

#[test]
fn header_hash_depends_on_the_order_of_fields() {
    assert_eq!(header(T0, 29, 0).hash(&mut DefaultHash::new()), Ok(HASH_SWAPPED));
    assert_ne!(HASH_SWAPPED, HASH_NONCE_29);
}

#[test]
fn header_hash_is_deterministic() {
    let first = header(29, T0, 0).hash(&mut DefaultHash::new());
    let second = header(29, T0, 0).hash(&mut DefaultHash::new());
    assert_eq!(first, second);
}

#[test]
fn header_hash_with_one_engine_twice() {
    let mut hasher = DefaultHash::new();
    assert_eq!(header(29, T0, 0).hash(&mut hasher), Ok(HASH_NONCE_29));
    assert_eq!(header(29, T0, 0).hash(&mut hasher), Ok(HASH_NONCE_29));
}

#[test]
fn header_hash_covers_what_the_engine_had_pending() {
    let mut hasher = DefaultHash::new();
    hasher.update(b"xyz");
    assert_eq!(header(29, T0, 0).hash(&mut hasher), Ok(HASH_XYZ_NONCE_29));
}

#[test]
fn header_without_miner_has_no_hash() {
    let unmined = BlockHeader::new(ZERO, ROOT, 29, T0, None, 0);
    let mut hasher = DefaultHash::new();
    assert_eq!(unmined.hash(&mut hasher), Err(BlockError::MissingMiner));
    assert!(hasher.digest().is_err());
}

#[test]
fn header_without_miner_is_invalid_and_leaves_the_engine_alone() {
    let unmined = BlockHeader::new(ZERO, ROOT, 29, T0, None, 0);
    let mut hasher = DefaultHash::new();
    hasher.update(b"abc");
    assert!(!unmined.validate(HASH_NONCE_29, &mut hasher));
    assert!(!unmined.validate_at(HASH_NONCE_29, &mut hasher, T0));
    assert_eq!(hasher.digest(), Ok(ABC_DIGEST));
}

#[test]
fn valid_header_validates() {
    assert!(header(29, T0, 0).validate_at(HASH_NONCE_29, &mut DefaultHash::new(), T0));
    assert!(header(29, T0, 0).validate(HASH_NONCE_29, &mut DefaultHash::new()));
}

#[test]
fn header_with_another_hash_is_invalid() {
    assert!(!header(29, T0, 0).validate_at(HASH_NONCE_0, &mut DefaultHash::new(), T0));
    assert!(!header(29, T0, 0).validate(HASH_NONCE_0, &mut DefaultHash::new()));
}

#[test]
fn header_below_difficulty_is_invalid() {
    assert!(!header(0, T0, 0).validate_at(HASH_NONCE_0, &mut DefaultHash::new(), T0));
    assert!(!header(0, T0, 0).validate(HASH_NONCE_0, &mut DefaultHash::new()));
}

#[test]
fn difficulty_follows_the_depth() {
    assert!(header(40, T0, 65536).validate_at(HASH_DEEP_NONCE_40, &mut DefaultHash::new(), T0));
    assert!(!header(29, T0, 65536).validate_at(HASH_DEEP_NONCE_29, &mut DefaultHash::new(), T0));
}

#[test]
fn timestamp_may_be_an_hour_ahead_and_no_more() {
    assert_eq!(MAX_FUTURE_SECONDS, 3600);
    let header = header(29, T0, 0);
    assert!(!header.validate_at(HASH_NONCE_29, &mut DefaultHash::new(), T0 - 3601));
    assert!(header.validate_at(HASH_NONCE_29, &mut DefaultHash::new(), T0 - 3600));
    assert!(header.validate_at(HASH_NONCE_29, &mut DefaultHash::new(), T0 - 3599));
    assert!(header.validate_at(HASH_NONCE_29, &mut DefaultHash::new(), T0 + 1));
    assert!(!header.validate_at(HASH_NONCE_29, &mut DefaultHash::new(), 0));
}

#[test]
fn timestamp_bound_does_not_overflow() {
    let late = header(5, u64::MAX, 0);
    assert!(late.validate_at(HASH_FAR_FUTURE, &mut DefaultHash::new(), u64::MAX));
    assert!(late.validate_at(HASH_FAR_FUTURE, &mut DefaultHash::new(), u64::MAX - 3600));
    assert!(!late.validate_at(HASH_FAR_FUTURE, &mut DefaultHash::new(), u64::MAX - 3601));
    assert!(header(29, T0, 0).validate_at(HASH_NONCE_29, &mut DefaultHash::new(), u64::MAX));
}

#[test]
fn header_from_the_far_future_is_invalid_by_the_clock() {
    assert!(!header(5, u64::MAX, 0).validate(HASH_FAR_FUTURE, &mut DefaultHash::new()));
}

#[test]
fn validation_with_pending_bytes_in_the_engine() {
    let mut hasher = DefaultHash::new();
    hasher.update(b"xyz");
    assert!(!header(29, T0, 0).validate_at(HASH_NONCE_29, &mut hasher, T0));
    hasher.update(b"xyz");
    assert!(header(29, T0, 0).validate_at(HASH_XYZ_NONCE_29, &mut hasher, T0));
    assert!(hasher.digest().is_err());
}

#[test]
fn check_names_the_first_failing_check() {
    let unmined = BlockHeader::new(ZERO, ROOT, 0, u64::MAX, None, 0);
    assert_eq!(
        unmined.check_at(HASH_NONCE_29, &mut DefaultHash::new(), 0),
        Err(BlockError::MissingMiner)
    );
    assert_eq!(
        header(0, u64::MAX, 0).check_at(ZERO, &mut DefaultHash::new(), 0),
        Err(BlockError::HashMismatch)
    );
    assert_eq!(
        header(0, T0, 0).check_at(HASH_NONCE_0, &mut DefaultHash::new(), 0),
        Err(BlockError::BelowDifficulty)
    );
    assert_eq!(
        header(29, T0, 0).check_at(HASH_NONCE_29, &mut DefaultHash::new(), T0 - 3601),
        Err(BlockError::FutureTimestamp)
    );
    assert_eq!(header(29, T0, 0).check_at(HASH_NONCE_29, &mut DefaultHash::new(), T0), Ok(()));
}
