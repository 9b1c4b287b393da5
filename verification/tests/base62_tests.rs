use squrl::base62::encode_base62;

#[test]
fn test_encode_base62_zero() {
    assert_eq!(encode_base62(0), "a");
}

#[test]
fn test_encode_base62_small() {
    assert_eq!(encode_base62(1), "b");
    assert_eq!(encode_base62(61), "9");
}

#[test]
fn test_encode_base62_large() {
    assert_eq!(encode_base62(62), "ba");
    assert_eq!(encode_base62(3844), "baa");
}

#[test]
fn test_encode_base62_alphabet_only() {
    let samples: [u64; 6] = [0, 7, 61, 62, 123456789, u64::MAX];
    for n in samples {
        let s = encode_base62(n);
        assert!(!s.is_empty());
        assert!(s.chars().all(|c| c.is_ascii_alphanumeric()));
    }
}

#[test]
fn test_encode_base62_max_value() {
    // 2^64 - 1 in base 62, most significant digit first.
    assert_eq!(encode_base62(u64::MAX), "v8QrKbgkrIp");
}
