use kvdb_rs::keyname::{get_name_or_generate, is_valid_key_name, is_valid_key_name_given};

#[test]
fn empty_name_is_invalid() {
    assert!(!is_valid_key_name(""));
}

#[test]
fn letters_digits_underscore_dash_dot_are_valid() {
    assert!(is_valid_key_name("abc_DEF-123.x"));
    assert!(is_valid_key_name("a"));
    assert!(is_valid_key_name("..."));
}

#[test]
fn unicode_letters_are_valid() {
    assert!(is_valid_key_name("ключ"));
    assert!(is_valid_key_name("名前"));
}

#[test]
fn other_characters_are_invalid() {
    assert!(!is_valid_key_name("a b"));
    assert!(!is_valid_key_name("a/b"));
    assert!(!is_valid_key_name("key!"));
    assert!(!is_valid_key_name("é'"));
}

#[test]
fn given_name_is_kept() {
    assert_eq!(get_name_or_generate(&Some("mine".to_string())), "mine");
    assert_eq!(get_name_or_generate(&Some(String::new())), "");
}

fn is_v4_text(s: &str) -> bool {
    let cs: Vec<char> = s.chars().collect();
    if cs.len() != 36 {
        return false;
    }
    for (i, c) in cs.iter().enumerate() {
        let ok = if i == 8 || i == 13 || i == 18 || i == 23 {
            *c == '-'
        } else {
            c.is_ascii_digit() || ('a'..='f').contains(c)
        };
        if !ok {
            return false;
        }
    }
    cs[14] == '4' && "89ab".contains(cs[19])
}

#[test]
fn missing_name_is_a_fresh_uuid() {
    let a = get_name_or_generate(&None);
    let b = get_name_or_generate(&None);
    assert!(is_v4_text(&a), "{}", a);
    assert!(is_v4_text(&b), "{}", b);
    assert_ne!(a, b);
    assert!(is_valid_key_name(&a));
}

#[test]
fn ascii_letters_and_digits_only_among_ascii() {
    for b in 0u8..128 {
        let c = b as char;
        let s = c.to_string();
        let expected = c.is_ascii_alphanumeric() || c == '_' || c == '-' || c == '.';
        assert_eq!(is_valid_key_name(&s), expected, "{:?}", c);
    }
}

#[test]
fn name_check_with_given_alphanumerics() {
    assert!(is_valid_key_name_given("ab", &vec![true, true]));
    assert!(!is_valid_key_name_given("ab", &vec![true, false]));
    assert!(!is_valid_key_name_given("ab", &vec![true]));
    assert!(is_valid_key_name_given("a_", &vec![true]));
    assert!(is_valid_key_name_given("-.", &vec![]));
    assert!(!is_valid_key_name_given("", &vec![]));
    assert!(is_valid_key_name_given("ключ", &vec![true, true, true, true]));
}
