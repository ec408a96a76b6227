//! Tests of the string utilities and the commitment digest.

use snapshot_reconciler::hashing::sha256_hex;
use snapshot_reconciler::text::{contains_sub, has_prefix, parse_u64, str_eq, to_lower_ascii, u64_to_dec};

#[test]
fn parse_u64_reads_decimal_numbers() {
    assert_eq!(parse_u64("0"), Some(0));
    assert_eq!(parse_u64("123"), Some(123));
    assert_eq!(parse_u64("18446744073709551615"), Some(u64::MAX));
}

#[test]
fn parse_u64_rejects_bad_input() {
    assert_eq!(parse_u64(""), None);
    assert_eq!(parse_u64("12a"), None);
    assert_eq!(parse_u64("-1"), None);
    assert_eq!(parse_u64(" 7"), None);
    assert_eq!(parse_u64("18446744073709551616"), None);
}

#[test]
fn u64_to_dec_renders_decimal_numbers() {
    assert_eq!(u64_to_dec(0).as_str(), "0");
    assert_eq!(u64_to_dec(42).as_str(), "42");
    assert_eq!(u64_to_dec(1000).as_str(), "1000");
    assert_eq!(u64_to_dec(u64::MAX).as_str(), "18446744073709551615");
}

#[test]
fn to_lower_ascii_folds_only_ascii_uppercase() {
    assert_eq!(to_lower_ascii("A3F1").as_str(), "a3f1");
    assert_eq!(to_lower_ascii("abc").as_str(), "abc");
    assert_eq!(to_lower_ascii("MiXeD-09_Z").as_str(), "mixed-09_z");
    assert_eq!(to_lower_ascii("").as_str(), "");
}

#[test]
fn str_eq_compares_by_characters() {
    assert!(str_eq("abc", "abc"));
    assert!(!str_eq("abc", "abd"));
    assert!(!str_eq("abc", "abcd"));
    assert!(str_eq("", ""));
}

#[test]
fn contains_sub_finds_substrings() {
    assert!(contains_sub("error: not found", "not found"));
    assert!(contains_sub("not found", "not found"));
    assert!(!contains_sub("not fond", "not found"));
    assert!(contains_sub("anything", ""));
}

#[test]
fn has_prefix_checks_prefixes() {
    assert!(has_prefix("deadbeef", "dea"));
    assert!(has_prefix("deadbeef", ""));
    assert!(!has_prefix("deadbeef", "dead1"));
    assert!(!has_prefix("de", "dead"));
}

#[test]
fn sha256_hex_matches_known_vectors() {
    assert_eq!(
        sha256_hex("").as_str(),
        "e3b0c44298fc1c149afbf4c8996fb92427ae41e4649b934ca495991b7852b855"
    );
    assert_eq!(
        sha256_hex("abc").as_str(),
        "ba7816bf8f01cfea414140de5dae2223b00361a396177a9cb410ff61f20015ad"
    );
}

#[test]
fn sha256_hex_is_lowercase_hex_of_length_64() {
    let h = sha256_hex("{\"test\": \"data\"}");
    assert_eq!(h.len(), 64);
    assert!(h.chars().all(|c| c.is_ascii_hexdigit()));
    assert_eq!(to_lower_ascii(h.as_str()).as_str(), h.as_str());
}
