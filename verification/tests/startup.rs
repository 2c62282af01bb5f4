use quarkdrive_webdav::clock::{datable_millis, http_date, now_millis};
use quarkdrive_webdav::startup::{
    auth_config, default_log_filter, parse_cookies, tls_config, StartError,
};
use std::time::{SystemTime, UNIX_EPOCH};

fn some(s: &str) -> Option<String> {
    Some(s.to_string())
}

#[test]
fn cookies_are_parsed() {
    let cookies = parse_cookies(" a = 1 ;b=2;; c ;d=x=y; a=3 ;=e");
    let get = |k: &str| cookies.get(k).map(|v| v.value().clone());
    assert_eq!(get("a").as_deref(), Some("3"));
    assert_eq!(get("b").as_deref(), Some("2"));
    assert_eq!(get("c"), None);
    assert_eq!(get("d").as_deref(), Some("x=y"));
    assert_eq!(get("").as_deref(), Some("e"));
    assert_eq!(cookies.len(), 4);
    assert!(parse_cookies("").is_empty());
}

#[test]
fn pairs_are_given_together() {
    assert_eq!(auth_config(some("u"), some("p")), Ok(Some(("u".to_string(), "p".to_string()))));
    assert_eq!(auth_config(None, None), Ok(None));
    assert_eq!(auth_config(some("u"), None), Err(StartError::IncompleteAuth));
    assert_eq!(auth_config(None, some("p")), Err(StartError::IncompleteAuth));
    assert_eq!(tls_config(some("c"), some("k")), Ok(Some(("c".to_string(), "k".to_string()))));
    assert_eq!(tls_config(None, None), Ok(None));
    assert_eq!(tls_config(None, some("k")), Err(StartError::IncompleteTls));
    assert_eq!(
        StartError::IncompleteAuth.message(),
        "auth-user and auth-password must be specified together.",
    );
    assert_eq!(
        StartError::IncompleteTls.message(),
        "tls-cert and tls-key must be specified together.",
    );
}

#[test]
fn the_log_filter_depends_on_debug() {
    assert_eq!(default_log_filter(true), "quarkdrive_webdav=debug,reqwest=debug");
    assert_eq!(default_log_filter(false), "quarkdrive_webdav=info,reqwest=warn");
}

#[test]
fn dates_are_written_as_in_http() {
    assert_eq!(http_date(0), "Thu, 01 Jan 1970 00:00:00 GMT");
    assert_eq!(http_date(784_111_777_999), "Sun, 06 Nov 1994 08:49:37 GMT");
    assert_eq!(http_date(8_210_266_876_799_999), "Mon, 31 Dec +262142 23:59:59 GMT");
}

#[test]
fn the_clock_is_that_of_the_machine() {
    let before = SystemTime::now().duration_since(UNIX_EPOCH).unwrap().as_millis() as u64;
    let now = now_millis();
    let after = SystemTime::now().duration_since(UNIX_EPOCH).unwrap().as_millis() as u64;
    assert!(before <= now && now <= after);
}

#[test]
fn readings_of_the_clock_are_brought_into_range() {
    assert_eq!(datable_millis(i64::MIN), 0);
    assert_eq!(datable_millis(-1), 0);
    assert_eq!(datable_millis(0), 0);
    assert_eq!(datable_millis(1_700_000_000_123), 1_700_000_000_123);
    assert_eq!(datable_millis(8_210_266_876_799_999), 8_210_266_876_799_999);
    assert_eq!(datable_millis(8_210_266_876_800_000), 8_210_266_876_799_999);
    assert_eq!(datable_millis(i64::MAX), 8_210_266_876_799_999);
}
