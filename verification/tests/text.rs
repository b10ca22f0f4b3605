use codex_native_team::digest::sha256_hex;
use codex_native_team::digest::text_sha256_hex;
use codex_native_team::paths::join;
use codex_native_team::text::approx_token_count;
use codex_native_team::text::contains_str;
use codex_native_team::text::decimal_string;
use codex_native_team::text::eq_ignore_ascii_case;
use codex_native_team::text::is_blank;
use codex_native_team::text::parse_u64;
use codex_native_team::text::push_signed_decimal;
use codex_native_team::text::trimmed;

#[test]
fn token_estimate_is_bytes_over_four_rounded_up() {
    assert_eq!(approx_token_count(""), 0);
    assert_eq!(approx_token_count("abcd"), 1);
    assert_eq!(approx_token_count("abcde"), 2);
    assert_eq!(approx_token_count("🦀"), 1);
}

#[test]
fn decimals_parse_back() {
    for n in [0u64, 7, 10, 12_345, u64::MAX] {
        assert_eq!(parse_u64(&decimal_string(n)), Some(n));
    }
    assert_eq!(parse_u64("+5"), Some(5));
    assert_eq!(parse_u64("18446744073709551616"), None);
    assert_eq!(parse_u64(""), None);
    let mut s = String::new();
    push_signed_decimal(&mut s, -42);
    assert_eq!(s, "-42");
}

#[test]
fn unicode_whitespace_is_trimmed() {
    assert_eq!(trimmed("\u{3000} hi \n"), "hi");
    assert!(is_blank(" \t\u{a0}"));
    assert!(!is_blank(" x "));
}

#[test]
fn ascii_case_and_substrings() {
    assert!(eq_ignore_ascii_case("Working", "wORKING"));
    assert!(!eq_ignore_ascii_case("É", "é"));
    assert!(contains_str("NATIVE READY", "READY"));
    assert!(!contains_str("ready", "READY"));
}

#[test]
fn digests_are_lowercase_hex() {
    assert_eq!(
        text_sha256_hex(""),
        "e3b0c44298fc1c149afbf4c8996fb92427ae41e4649b934ca495991b7852b855"
    );
    assert_eq!(sha256_hex(&b"abc".to_vec()), text_sha256_hex("abc"));
}

#[test]
fn paths_join_like_std() {
    assert_eq!(join("/a", "b"), "/a/b");
    assert_eq!(join("/a/", "b"), "/a/b");
    assert_eq!(join("", "b"), "b");
    assert_eq!(join("/a", "/b"), "/b");
}
