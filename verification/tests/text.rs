use relyzer_swc::text::{chars_eq, contains_chars, first_is_lower, first_is_upper, push_decimal, push_hexadecimal};

fn chars(s: &str) -> Vec<char> {
    s.chars().collect()
}

#[test]
fn decimal_text() {
    let mut out = chars("n=");
    push_decimal(&mut out, 0);
    assert_eq!(out, chars("n=0"));
    let mut out = Vec::new();
    push_decimal(&mut out, 1204);
    assert_eq!(out, chars("1204"));
}

#[test]
fn hexadecimal_text() {
    let mut out = Vec::new();
    push_hexadecimal(&mut out, 0);
    assert_eq!(out, chars("0"));
    let mut out = chars("x");
    push_hexadecimal(&mut out, u64::MAX);
    assert_eq!(out, chars("xffffffffffffffff"));
}

#[test]
fn first_letter_case() {
    assert!(first_is_upper(&chars("Abc")));
    assert!(!first_is_upper(&chars("abc")));
    assert!(!first_is_upper(&chars("")));
    assert!(!first_is_upper(&chars("Éa")));
    assert!(first_is_lower(&chars("abc")));
    assert!(!first_is_lower(&chars("_abc")));
    assert!(!first_is_lower(&chars("")));
}

#[test]
fn equality_and_search() {
    assert!(chars_eq(&chars("abc"), &chars("abc")));
    assert!(!chars_eq(&chars("abc"), &chars("abd")));
    assert!(!chars_eq(&chars("ab"), &chars("abc")));
    assert!(contains_chars(&chars("/** @component */"), &chars("@component")));
    assert!(!contains_chars(&chars("@compon"), &chars("@component")));
    assert!(contains_chars(&chars("x"), &chars("")));
}
