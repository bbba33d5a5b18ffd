use router::text::eq_ignore_ascii_case;
use router::text::{push_decimal, push_signed_decimal, split_char, starts_with, str_eq};

#[test]
fn decimal_numbers() {
    let mut s = String::from("n=");
    push_decimal(&mut s, 0);
    assert_eq!(s, "n=0");
    let mut s = String::new();
    push_decimal(&mut s, u64::MAX);
    assert_eq!(s, u64::MAX.to_string());
    let mut s = String::new();
    push_signed_decimal(&mut s, i64::MIN);
    assert_eq!(s, i64::MIN.to_string());
    let mut s = String::new();
    push_signed_decimal(&mut s, -42);
    assert_eq!(s, "-42");
}

#[test]
fn prefixes_and_equality() {
    assert!(starts_with("restriction:hgv", "restriction:"));
    assert!(starts_with("abc", ""));
    assert!(!starts_with("ab", "abc"));
    assert!(starts_with("ünïcode", "ün"));
    assert!(str_eq("ü", "ü"));
    assert!(!str_eq("a", "b"));
}

#[test]
fn split_on_separator() {
    assert_eq!(split_char("oneway:bicycle:conditional", ':'), vec!["oneway", "bicycle", "conditional"]);
    assert_eq!(split_char("", ':'), vec![""]);
    assert_eq!(split_char("a::b", ':'), vec!["a", "", "b"]);
}

#[test]
fn ascii_case_insensitive_equality() {
    assert!(eq_ignore_ascii_case("CaR", "car"));
    assert!(!eq_ignore_ascii_case("car", "cars"));
    assert!(!eq_ignore_ascii_case("Ü", "ü"));
    assert!(eq_ignore_ascii_case("", ""));
}
