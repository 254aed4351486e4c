use container_client::text::{contains_nul, push_decimal};

#[test]
fn nul_detection() {
    assert!(!contains_nul(""));
    assert!(!contains_nul("com.apple.container.apiserver"));
    assert!(!contains_nul("héllo wörld"));
    assert!(contains_nul("\0"));
    assert!(contains_nul("abc\0"));
    assert!(contains_nul("é\0é"));
}

#[test]
fn decimal_text() {
    let mut s = String::from("n=");
    push_decimal(&mut s, 0);
    assert_eq!(s, "n=0");
    let mut s = String::new();
    push_decimal(&mut s, 9);
    assert_eq!(s, "9");
    let mut s = String::new();
    push_decimal(&mut s, 10);
    assert_eq!(s, "10");
    let mut s = String::new();
    push_decimal(&mut s, 18446744073709551615);
    assert_eq!(s, "18446744073709551615");
}
