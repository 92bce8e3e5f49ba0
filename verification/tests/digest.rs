use blockchain::digest::{u64_to_hex, u64_to_le_bytes};
use blockchain::Blockchain;
use std::collections::hash_map::DefaultHasher;
use std::hash::Hasher;

/// Recomputes the digest with the standard hasher directly, the way the
/// library's digest is specified: previous digest bytes, timestamp bytes
/// (least significant first), payload bytes, then the value in hexadecimal.
fn expected_digest(previous_hash: &str, timestamp: u64, data: &str) -> String {
    let mut hasher = DefaultHasher::new();
    hasher.write(previous_hash.as_bytes());
    hasher.write(&timestamp.to_le_bytes());
    hasher.write(data.as_bytes());
    format!("{:x}", hasher.finish())
}

#[test]
fn hex_formatting_matches_std() {
    assert_eq!(u64_to_hex(0), "0");
    assert_eq!(u64_to_hex(9), "9");
    assert_eq!(u64_to_hex(10), "a");
    assert_eq!(u64_to_hex(255), "ff");
    assert_eq!(u64_to_hex(4096), "1000");
    assert_eq!(u64_to_hex(u64::MAX), "ffffffffffffffff");
    for x in [1u64, 15, 16, 12345, 987654321, 0xdead_beef_cafe] {
        assert_eq!(u64_to_hex(x), format!("{:x}", x));
    }
}

#[test]
fn le_bytes_match_std() {
    for x in [0u64, 1, 255, 256, 0x0102_0304_0506_0708, u64::MAX] {
        assert_eq!(u64_to_le_bytes(x), x.to_le_bytes().to_vec());
    }
}

#[test]
fn digest_is_deterministic() {
    let l = Blockchain::new();
    let a = l.calculate_hash("0", 42, "payload");
    let b = l.calculate_hash("0", 42, "payload");
    assert_eq!(a, b);
}

#[test]
fn digest_matches_std_hasher() {
    let l = Blockchain::new();
    for (prev, ts, data) in [
        ("0", 0u64, ""),
        ("0", 1, "Transaction 1;Transaction 2"),
        ("abc123", 1700000000, "hello"),
        ("ffffffffffffffff", u64::MAX, "x"),
    ] {
        assert_eq!(l.calculate_hash(prev, ts, data), expected_digest(prev, ts, data));
    }
}

#[test]
fn digest_changes_with_each_input() {
    let l = Blockchain::new();
    let base = l.calculate_hash("0", 42, "payload");
    assert_ne!(l.calculate_hash("1", 42, "payload"), base);
    assert_ne!(l.calculate_hash("0", 43, "payload"), base);
    assert_ne!(l.calculate_hash("0", 42, "payloae"), base);
}

#[test]
fn digest_distinct_over_sample() {
    // A large sample of distinct inputs maps to distinct outputs; exact
    // collision freedom is not guaranteed and is not asserted in general.
    let l = Blockchain::new();
    let mut seen: Vec<String> = Vec::new();
    for ts in 0..200u64 {
        seen.push(l.calculate_hash("0", ts, "payload"));
    }
    for i in 0..seen.len() {
        for j in 0..i {
            assert_ne!(seen[i], seen[j]);
        }
    }
}
