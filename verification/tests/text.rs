use changelog::text::{decimal_text, ends_with, starts_with};

#[test]
fn decimal_numbers() {
    assert_eq!(decimal_text(0), "0");
    assert_eq!(decimal_text(9), "9");
    assert_eq!(decimal_text(10), "10");
    assert_eq!(decimal_text(1020304050607), "1020304050607");
    assert_eq!(decimal_text(u64::MAX), "18446744073709551615");
    let mut n: u64 = 1;
    for _ in 0..1000 {
        n = n.wrapping_mul(6364136223846793005).wrapping_add(1);
        assert_eq!(decimal_text(n), n.to_string());
    }
}

#[test]
fn prefixes_and_suffixes() {
    assert!(starts_with("abc", ""));
    assert!(starts_with("abc", "ab"));
    assert!(starts_with("\u{1F191}x", "\u{1F191}"));
    assert!(!starts_with("abc", "b"));
    assert!(!starts_with("a", "ab"));
    assert!(ends_with("abc", ""));
    assert!(ends_with("abc", "bc"));
    assert!(ends_with("x\u{1F191}", "\u{1F191}"));
    assert!(!ends_with("abc", "b"));
    assert!(!ends_with("c", "bc"));
}
