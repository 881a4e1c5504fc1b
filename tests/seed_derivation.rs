use logen::base::seed::{derive_seed_32, derive_seed_u64};

#[test]
fn test_seed_deterministic() {
    let seed1 = derive_seed_32("test", None);
    let seed2 = derive_seed_32("test", None);
    assert_eq!(seed1, seed2);
}

#[test]
fn test_seed_different_inputs() {
    let seed1 = derive_seed_32("test1", None);
    let seed2 = derive_seed_32("test2", None);
    assert_ne!(seed1, seed2);
}

#[test]
fn test_seed_variant_changes_output() {
    let seed1 = derive_seed_32("test", None);
    let seed2 = derive_seed_32("test", Some(1));
    assert_ne!(seed1, seed2);
}

#[test]
fn test_seed_different_variants() {
    let seed1 = derive_seed_32("test", Some(1));
    let seed2 = derive_seed_32("test", Some(2));
    assert_ne!(seed1, seed2);
}

#[test]
fn test_seed_u64_deterministic() {
    let seed1 = derive_seed_u64("test", None);
    let seed2 = derive_seed_u64("test", None);
    assert_eq!(seed1, seed2);
}

#[test]
fn test_seed_32_length() {
    let seed = derive_seed_32("test", None);
    assert_eq!(seed.len(), 32);
}

#[test]
fn test_seed_u64_different_inputs() {
    let seed1 = derive_seed_u64("input1", None);
    let seed2 = derive_seed_u64("input2", None);
    assert_ne!(seed1, seed2);
}

#[test]
fn test_seed_u64_variant_changes() {
    let seed1 = derive_seed_u64("test", Some(1));
    let seed2 = derive_seed_u64("test", Some(2));
    assert_ne!(seed1, seed2);
}

#[test]
fn test_seed_empty_string() {
    let seed = derive_seed_32("", None);
    assert_eq!(seed.len(), 32);
}

#[test]
fn test_seed_unicode_input() {
    let seed1 = derive_seed_32("Hello 世界", None);
    let seed2 = derive_seed_32("Hello 世界", None);
    assert_eq!(seed1, seed2);
}

#[test]
fn test_seed_long_input() {
    let long_input = "a".repeat(1000);
    let seed1 = derive_seed_32(&long_input, None);
    let seed2 = derive_seed_32(&long_input, None);
    assert_eq!(seed1, seed2);
}

#[test]
fn test_seed_variant_zero_same_as_none() {
    let seed_none = derive_seed_32("test", None);
    let seed_zero = derive_seed_32("test", Some(0));
    assert_eq!(seed_none, seed_zero);
}

#[test]
fn seed_is_blake3_digest_of_the_text() {
    // BLAKE3 of the empty input.
    let empty = derive_seed_32("", None);
    assert_eq!(empty[0..4], [0xaf, 0x13, 0x49, 0xb9]);
    assert_ne!(derive_seed_32("abc", None)[0..3], *b"abc");
}

#[test]
fn variant_xors_little_endian_bytes_into_the_front() {
    let base = derive_seed_32("test", None);
    let v: u64 = 0x0102_0304_0506_0708;
    let varied = derive_seed_32("test", Some(v));
    for i in 0..8 {
        assert_eq!(varied[i], base[i] ^ v.to_le_bytes()[i]);
    }
    assert_eq!(varied[8..], base[8..]);
}

#[test]
fn seed_u64_reads_first_eight_bytes_little_endian() {
    let s = derive_seed_32("hello", Some(5));
    let mut b = [0u8; 8];
    b.copy_from_slice(&s[..8]);
    assert_eq!(derive_seed_u64("hello", Some(5)), u64::from_le_bytes(b));
}
