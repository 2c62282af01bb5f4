use quarkdrive_webdav::download::{is_query_expired, is_url_expired, is_url_expired_at};
use std::time::{SystemTime, UNIX_EPOCH};

fn seconds() -> u64 {
    SystemTime::now().duration_since(UNIX_EPOCH).unwrap().as_secs()
}

#[test]
fn test_is_url_expired_with_past_timestamp() {
    // Expires=0 is definitely in the past
    let url = "https://example.com/file?Expires=0";
    assert!(is_url_expired(url));
}

#[test]
fn test_is_url_expired_with_future_timestamp() {
    // Use a timestamp far in the future (year ~2100)
    let url = "https://example.com/file?Expires=4102444800";
    assert!(!is_url_expired(url));
}

#[test]
fn test_is_url_expired_no_expires_param() {
    let url = "https://example.com/file?key=value";
    // No Expires param => not expired (returns false)
    assert!(!is_url_expired(url));
}

#[test]
fn test_is_url_expired_invalid_url() {
    let url = "not a valid url";
    // Invalid URL => not expired (returns false)
    assert!(!is_url_expired(url));
}

#[test]
fn test_is_url_expired_within_60s_buffer() {
    // Get current time + 30 seconds (within the 60s buffer)
    let expires = seconds() + 30;
    let url = format!("https://example.com/file?Expires={}", expires);
    // Should be considered expired (within 60s buffer)
    assert!(is_url_expired(&url));
}

#[test]
fn test_is_url_expired_beyond_60s_buffer() {
    // Get current time + 120 seconds (beyond the 60s buffer)
    let expires = seconds() + 120;
    let url = format!("https://example.com/file?Expires={}", expires);
    assert!(!is_url_expired(&url));
}

#[test]
fn test_is_url_expired_empty_string() {
    assert!(!is_url_expired(""));
}

#[test]
fn test_is_url_expired_with_multiple_params() {
    // URL with multiple params, Expires in the middle
    let url = "https://example.com/file?OSSAccessKeyId=xxx&Expires=0&Signature=yyy";
    assert!(is_url_expired(url));
}

#[test]
fn test_is_url_expired_exactly_at_boundary() {
    // Get current time + exactly 60 seconds (at boundary)
    let expires = seconds() + 60;
    let url = format!("https://example.com/file?Expires={}", expires);
    // current_ts + 60 >= expires => should be expired at boundary
    assert!(is_url_expired(&url));
}

#[test]
fn test_is_url_expired_non_numeric_expires() {
    let url = "https://example.com/file?Expires=not_a_number";
    // Non-numeric Expires should not cause a panic, returns false
    assert!(!is_url_expired(url));
}

#[test]
fn expiry_is_exact_to_the_second() {
    let url = "https://example.com/file?Expires=1000";
    assert!(!is_url_expired_at(url, 939));
    assert!(is_url_expired_at(url, 940));
    assert!(is_url_expired_at(url, u64::MAX));
}

#[test]
fn names_and_values_of_a_query_are_decoded() {
    let url = "https://example.com/file?%45xpires=%31000&x=y";
    assert!(!is_url_expired_at(url, 939));
    assert!(is_url_expired_at(url, 940));
}

#[test]
fn the_first_readable_time_counts() {
    let pair = |k: &str, v: &str| (k.to_string(), v.to_string());
    let pairs = || {
        Some(vec![
            pair("expires", "0"),
            pair("Expires", "soon"),
            pair("Expires", "5000"),
            pair("Expires", "0"),
        ])
    };
    assert!(!is_query_expired(pairs(), 4939));
    assert!(is_query_expired(pairs(), 4940));
    assert!(!is_query_expired(Some(vec![pair("Expires", "18446744073709551616")]), u64::MAX));
    assert!(!is_query_expired(Some(vec![pair("Expires", "18446744073709551615")]), 0));
    assert!(is_query_expired(Some(vec![pair("Expires", "+7")]), 0));
    assert!(!is_query_expired(None, u64::MAX));
}
