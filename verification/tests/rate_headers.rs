//! Header extraction: every subset of the three rate-limit headers, case
//! folding of names, and the integer grammar of values.

use egg_mode::headers::{extract_field, parse_i32, rate_headers, Headers};

fn with(names: &[(&str, &str)]) -> Headers {
    let mut h = Headers::new();
    for (n, v) in names {
        h.push(n.as_bytes().to_vec(), v.as_bytes().to_vec());
    }
    h
}

const LIMIT: &str = "X-Rate-Limit-Limit";
const REMAINING: &str = "X-Rate-Limit-Remaining";
const RESET: &str = "X-Rate-Limit-Reset";

#[test]
fn extraction_all_subsets() {
    // Each of the three headers independently present or absent; the
    // absent ones extract as -1, the present ones as their value.
    for mask in 0..8u32 {
        let mut pairs: Vec<(&str, &str)> = Vec::new();
        if mask & 1 != 0 {
            pairs.push((LIMIT, "180"));
        }
        if mask & 2 != 0 {
            pairs.push((REMAINING, "77"));
        }
        if mask & 4 != 0 {
            pairs.push((RESET, "1500000000"));
        }
        let r = rate_headers(&with(&pairs));
        assert_eq!(r.rate_limit, if mask & 1 != 0 { 180 } else { -1 });
        assert_eq!(r.rate_limit_remaining, if mask & 2 != 0 { 77 } else { -1 });
        assert_eq!(r.rate_limit_reset, if mask & 4 != 0 { 1500000000 } else { -1 });
    }
}

#[test]
fn malformed_value_counts_as_absent() {
    let r = rate_headers(&with(&[(LIMIT, "abc"), (REMAINING, ""), (RESET, "12 ")]));
    assert_eq!(r.rate_limit, -1);
    assert_eq!(r.rate_limit_remaining, -1);
    assert_eq!(r.rate_limit_reset, -1);
}

#[test]
fn header_names_fold_ascii_case() {
    let r = rate_headers(&with(&[("x-rate-limit-limit", "9"), ("X-RATE-LIMIT-RESET", "8")]));
    assert_eq!(r.rate_limit, 9);
    assert_eq!(r.rate_limit_reset, 8);
    assert_eq!(r.rate_limit_remaining, -1);
}

#[test]
fn first_matching_header_wins() {
    let h = with(&[(LIMIT, "5"), (LIMIT, "6")]);
    assert_eq!(extract_field(&h, LIMIT.as_bytes()), 5);
}

#[test]
fn parse_i32_accepts_plain_integers() {
    assert_eq!(parse_i32(b"0"), Some(0));
    assert_eq!(parse_i32(b"42"), Some(42));
    assert_eq!(parse_i32(b"007"), Some(7));
    assert_eq!(parse_i32(b"+5"), Some(5));
    assert_eq!(parse_i32(b"-13"), Some(-13));
}

#[test]
fn parse_i32_bounds() {
    assert_eq!(parse_i32(b"2147483647"), Some(i32::MAX));
    assert_eq!(parse_i32(b"-2147483648"), Some(i32::MIN));
    assert_eq!(parse_i32(b"2147483648"), None);
    assert_eq!(parse_i32(b"-2147483649"), None);
    assert_eq!(parse_i32(b"99999999999999999999999999"), None);
}

#[test]
fn parse_i32_rejects_garbage() {
    assert_eq!(parse_i32(b""), None);
    assert_eq!(parse_i32(b"-"), None);
    assert_eq!(parse_i32(b"+"), None);
    assert_eq!(parse_i32(b" 1"), None);
    assert_eq!(parse_i32(b"1 "), None);
    assert_eq!(parse_i32(b"1a"), None);
    assert_eq!(parse_i32(b"--1"), None);
}

#[test]
fn get_returns_first_value() {
    let h = with(&[("a", "1"), ("b", "2")]);
    assert_eq!(h.get(b"b").map(|v| v.clone()), Some(b"2".to_vec()));
    assert_eq!(h.get(b"B").map(|v| v.clone()), Some(b"2".to_vec()));
    assert!(h.get(b"c").is_none());
}
