use obfuscate::hash_bytes;
use obfuscate::hash_cstr;
use obfuscate::hash_utf8;

#[test]
fn test_hash_golden() {
    // Documented fixture for the case-folding DJB2-XOR hash.
    assert_eq!(hash_utf8("Hello World"), 0x6520f29d);
}

#[test]
fn test_hash_empty() {
    assert_eq!(hash_utf8(""), 3581);
    assert_eq!(hash_bytes(b""), 3581);
    assert_eq!(hash_cstr(b""), 3581);
}

#[test]
fn test_hash_trailing_nuls() {
    assert_eq!(hash_bytes(b"abc\0\0\0"), hash_bytes(b"abc"));
    assert_eq!(hash_utf8("abc\0\0\0"), hash_utf8("abc"));
}

#[test]
fn test_hash_case_insensitive() {
    assert_eq!(hash_utf8("HELLO WORLD"), hash_utf8("hello world"));
    assert_eq!(hash_utf8("Hello World"), hash_utf8("hELLO wORLD"));
    assert_eq!(hash_bytes(b"MiXeD123"), hash_bytes(b"mixed123"));
}

#[test]
fn test_hash_cstr_stops_at_first_nul() {
    assert_eq!(hash_cstr(b"ab\0cd"), hash_cstr(b"ab"));
    assert_eq!(hash_cstr(b"ab\0cd"), 0x3b8d1e);
    // hash_bytes skips the interior NUL instead of stopping there.
    assert_ne!(hash_bytes(b"ab\0cd"), hash_bytes(b"ab"));
    assert_eq!(hash_bytes(b"ab\0cd"), hash_bytes(b"abcd"));
    assert_eq!(hash_bytes(b"ab\0cd"), 0xfd534839);
}

#[test]
fn test_hash_repeat_calls_identical() {
    // Purity: repeated calls on identical input always agree.
    let a = hash_utf8("repeatable");
    let b = hash_utf8("repeatable");
    let c = hash_utf8("repeatable");
    assert_eq!(a, b);
    assert_eq!(b, c);
}
