use httpget::codec::decode_bytes;
use httpget::request::{build_request, profile_count_ok};
use httpget::scan::{parse_dec, parse_hex, trim};
use httpget::stats::{max_sample, median_doubled, min_sample, sorted_copy, sum_sample};
use httpget::url::parse_url;

#[test]
fn test_median() {
    let a = vec![1, 100, 2, 1000, 3];
    assert_eq!((median_doubled(&a) as f64) / 2.0f64, 3.0f64);
    let b = vec![10, 10, 20, 20];
    assert_eq!((median_doubled(&b) as f64) / 2.0f64, 15.0f64);
}

#[test]
fn test_decode() {
    let s = vec![0xDFu8];
    assert_eq!(decode_bytes(&s), "\u{00DF}");
}

#[test]
fn test_parse_url() {
    let a = parse_url("example.com");
    assert_eq!(a, ("example.com:80".to_owned(), "/".to_owned()));

    let b = parse_url("example.com:1234/hi");
    assert_eq!(b, ("example.com:1234".to_owned(), "/hi".to_owned()));

    let c = parse_url("http://example.com/hi");
    assert_eq!(c, ("example.com:80".to_owned(), "/hi".to_owned()));

    let d = parse_url("https://example.com/hi");
    assert_eq!(d, ("example.com:80".to_owned(), "/hi".to_owned()));

    let e = parse_url("https://www.example.com:1234/hi/hello");
    assert_eq!(e, ("www.example.com:1234".to_owned(), "/hi/hello".to_owned()));

    let f = parse_url("127.0.0.1:1234/hi/hello");
    assert_eq!(f, ("127.0.0.1:1234".to_owned(), "/hi/hello".to_owned()));
}

#[test]
fn decode_valid_utf8_multibyte() {
    // 0xC3 0x9F is the two-byte UTF-8 encoding of U+00DF; a decoder that
    // handed the bytes through as Latin-1 would print two characters.
    let s = vec![0xC3u8, 0x9Fu8];
    let out = decode_bytes(&s);
    assert_eq!(out, "\u{00DF}");
    assert_eq!(out.chars().count(), 1);
}

#[test]
fn decode_ascii_identity() {
    let s = b"hello world".to_vec();
    assert_eq!(decode_bytes(&s), "hello world");
}

#[test]
fn decode_invalid_length_matches_byte_count() {
    // An invalid sequence decodes as Latin-1, one character per byte.
    let s = vec![0xFFu8, 0x61u8, 0xDFu8];
    let out = decode_bytes(&s);
    assert_eq!(out.chars().count(), 3);
    assert_eq!(out, "\u{00FF}a\u{00DF}");
}

#[test]
fn stats_extremes_and_sum() {
    let a = vec![7u64, 3, 9, 3];
    assert_eq!(min_sample(&a), 3);
    assert_eq!(max_sample(&a), 9);
    assert_eq!(sum_sample(&a), 22);
    assert_eq!(sorted_copy(&a), vec![3u64, 3, 7, 9]);
    // the input is untouched
    assert_eq!(a, vec![7u64, 3, 9, 3]);
}

#[test]
fn stats_single_sample() {
    let a = vec![41u64];
    assert_eq!(min_sample(&a), 41);
    assert_eq!(max_sample(&a), 41);
    assert_eq!(sum_sample(&a), 41);
    assert_eq!((median_doubled(&a) as f64) / 2.0f64, 41.0f64);
}

#[test]
fn median_between_extremes() {
    let a = vec![5u64, 1, 1000, 42, 17, 23, 8];
    let med = (median_doubled(&a) as f64) / 2.0f64;
    assert!(min_sample(&a) as f64 <= med);
    assert!(med <= max_sample(&a) as f64);
    let mean = sum_sample(&a) as f64 / a.len() as f64;
    assert!(min_sample(&a) as f64 <= mean);
    assert!(mean <= max_sample(&a) as f64);
}

#[test]
fn request_bytes_exact() {
    let r = build_request("example.com:80", "/hi");
    assert_eq!(r, "GET /hi HTTP/1.1\r\nHost: example.com:80\r\n\r\n");
}

#[test]
fn zero_profile_count_is_rejected() {
    assert!(!profile_count_ok(0));
    assert!(profile_count_ok(1));
    assert!(profile_count_ok(3));
}

#[test]
fn trim_strips_ascii_whitespace() {
    assert_eq!(trim(b" 200 OK\r\n"), b"200 OK".as_slice());
    assert_eq!(trim(b"\r\n"), b"".as_slice());
    assert_eq!(trim(b"abc"), b"abc".as_slice());
}

#[test]
fn parse_dec_values() {
    assert_eq!(parse_dec(b"0"), Some(0));
    assert_eq!(parse_dec(b"5"), Some(5));
    assert_eq!(parse_dec(b"1234567890"), Some(1234567890));
    assert_eq!(parse_dec(b""), None);
    assert_eq!(parse_dec(b"12a"), None);
    assert_eq!(parse_dec(b"99999999999999999999999999"), None);
}

#[test]
fn parse_hex_values() {
    assert_eq!(parse_hex(b"0"), Some(0));
    assert_eq!(parse_hex(b"a"), Some(10));
    assert_eq!(parse_hex(b"1A"), Some(26));
    assert_eq!(parse_hex(b"ff"), Some(255));
    assert_eq!(parse_hex(b""), None);
    assert_eq!(parse_hex(b"zz"), None);
}
