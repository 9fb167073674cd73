use kvdb_rs::config::parse_unsigned;
use kvdb_rs::text::decimal_text;

#[test]
fn decimal_of_small_numbers() {
    assert_eq!(decimal_text(0), "0");
    assert_eq!(decimal_text(7), "7");
    assert_eq!(decimal_text(10), "10");
    assert_eq!(decimal_text(12345), "12345");
}

#[test]
fn decimal_matches_format() {
    for n in [1usize, 9, 99, 100, 1000, 65536, 4294967295, usize::MAX] {
        assert_eq!(decimal_text(n), format!("{}", n));
    }
}

#[test]
fn written_numbers_read_back() {
    for n in [0usize, 5, 10, 123, 99999, usize::MAX] {
        assert_eq!(parse_unsigned(&decimal_text(n), u64::MAX), Some(n as u64));
    }
}
