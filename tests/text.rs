use dir_search::text::{chars_of, contains_str, decimal_string};

#[test]
fn decimal_of_small_and_large_numbers() {
    assert_eq!(decimal_string(0), "0");
    assert_eq!(decimal_string(7), "7");
    assert_eq!(decimal_string(10), "10");
    assert_eq!(decimal_string(4096), "4096");
    assert_eq!(decimal_string(u64::MAX), "18446744073709551615");
}

#[test]
fn containment_cases() {
    assert!(contains_str("foobar", "foo"));
    assert!(contains_str("foobar", "bar"));
    assert!(contains_str("foobar", "oba"));
    assert!(contains_str("foobar", ""));
    assert!(contains_str("", ""));
    assert!(!contains_str("", "a"));
    assert!(!contains_str("fo", "foo"));
    assert!(!contains_str("FOOBAR", "foo"));
    assert!(contains_str("aaab", "aab"));
}

#[test]
fn chars_keep_order() {
    assert_eq!(chars_of("aé b"), vec!['a', 'é', ' ', 'b']);
    assert_eq!(chars_of(""), Vec::<char>::new());
}
