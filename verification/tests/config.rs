use kvdb_rs::config::{cleanup_enabled, parse_unsigned, rate_limited_error, setting_or_default, unused_keys_cleanup_query};
use kvdb_rs::models::ErrorStatus;

#[test]
fn setting_found_or_default() {
    assert_eq!(setting_or_default(Some("1.2.3.4:80".to_string()), "0.0.0.0:3005"), "1.2.3.4:80");
    assert_eq!(setting_or_default(None, "0.0.0.0:3005"), "0.0.0.0:3005");
    assert_eq!(setting_or_default(Some(String::new()), "x"), "");
}

#[test]
fn cleanup_needs_period_and_age() {
    assert!(cleanup_enabled(false, "30 days"));
    assert!(!cleanup_enabled(true, "30 days"));
    assert!(!cleanup_enabled(false, "default_disabled"));
    assert!(!cleanup_enabled(true, "default_disabled"));
    assert!(cleanup_enabled(false, "default_disabled "));
}

#[test]
fn cleanup_statement_text() {
    assert_eq!(
        unused_keys_cleanup_query("7 days"),
        "DELETE FROM keys WHERE last_accessed < CURRENT_TIMESTAMP - INTERVAL '7 days'"
    );
    assert_eq!(
        unused_keys_cleanup_query(""),
        "DELETE FROM keys WHERE last_accessed < CURRENT_TIMESTAMP - INTERVAL ''"
    );
}

#[test]
fn rate_limit_answer() {
    let e = rate_limited_error();
    assert!(e.status == ErrorStatus::TooManyRequests);
    assert_eq!(e.status.code(), 429);
    assert_eq!(e.body.error, "Rate limit exceeded");
    assert!(!e.body.success);
}

#[test]
fn unsigned_settings_read_like_parse() {
    assert_eq!(parse_unsigned("0", u64::MAX), Some(0));
    assert_eq!(parse_unsigned("42", u64::MAX), Some(42));
    assert_eq!(parse_unsigned("+7", u64::MAX), Some(7));
    assert_eq!(parse_unsigned("007", u64::MAX), Some(7));
    assert_eq!(parse_unsigned("18446744073709551615", u64::MAX), Some(u64::MAX));
    assert_eq!(parse_unsigned("18446744073709551616", u64::MAX), None);
    assert_eq!(parse_unsigned("4294967295", u32::MAX as u64), Some(4294967295));
    assert_eq!(parse_unsigned("4294967296", u32::MAX as u64), None);
    for bad in ["", "+", "-1", " 1", "1 ", "1.5", "abc", "1_000", "++1"] {
        assert_eq!(parse_unsigned(bad, u64::MAX), None, "{:?}", bad);
        assert_eq!(bad.parse::<u64>().ok(), None);
    }
    for good in ["1", "+1", "0000", "99999"] {
        assert_eq!(parse_unsigned(good, u64::MAX), good.parse::<u64>().ok());
    }
}
