use dorg::text::{chars_of, decimal_string, same_chars, starts_with};

#[test]
fn chars_of_gives_the_characters_in_order() {
    assert_eq!(chars_of(""), Vec::<char>::new());
    assert_eq!(chars_of("a/b"), vec!['a', '/', 'b']);
    assert_eq!(chars_of("été"), vec!['é', 't', 'é']);
}

#[test]
fn same_chars_compares_whole_texts() {
    assert!(same_chars(&[], &[]));
    assert!(same_chars(&['d', 'a', 'y'], &['d', 'a', 'y']));
    assert!(!same_chars(&['d', 'a', 'y'], &['d', 'a', 'y', 's']));
    assert!(!same_chars(&['d', 'a', 'y', 's'], &['d', 'a', 'y']));
    assert!(!same_chars(&['d', 'a', 'y'], &['d', 'a', 'Y']));
    assert!(!same_chars(&['x', 'a', 'y'], &['d', 'a', 'y']));
}

#[test]
fn starts_with_finds_prefixes_only() {
    let text = chars_of("mode=day");
    assert!(starts_with(&text, &chars_of("")));
    assert!(starts_with(&text, &chars_of("mode=")));
    assert!(starts_with(&text, &chars_of("mode=day")));
    assert!(!starts_with(&text, &chars_of("mode=days")));
    assert!(!starts_with(&text, &chars_of("ode=")));
    assert!(!starts_with(&text, &chars_of("mode-")));
    assert!(!starts_with(&[], &chars_of("m")));
}

#[test]
fn decimal_string_writes_numbers_without_padding() {
    assert_eq!(decimal_string(0), "0");
    assert_eq!(decimal_string(3), "3");
    assert_eq!(decimal_string(9), "9");
    assert_eq!(decimal_string(10), "10");
    assert_eq!(decimal_string(11), "11");
    assert_eq!(decimal_string(31), "31");
    assert_eq!(decimal_string(100), "100");
    assert_eq!(decimal_string(2024), "2024");
    assert_eq!(decimal_string(1234567890), "1234567890");
}

#[test]
fn decimal_string_writes_negative_numbers_with_a_sign() {
    assert_eq!(decimal_string(-1), "-1");
    assert_eq!(decimal_string(-44), "-44");
    assert_eq!(decimal_string(-262143), "-262143");
}

#[test]
fn decimal_string_reaches_both_ends_of_the_range() {
    assert_eq!(decimal_string(i64::MAX), "9223372036854775807");
    assert_eq!(decimal_string(i64::MIN), "-9223372036854775808");
    assert_eq!(decimal_string(i64::MIN + 1), "-9223372036854775807");
}

#[test]
fn decimal_string_agrees_with_the_standard_rendering() {
    let mut n: i64 = -100_000;
    while n <= 100_000 {
        assert_eq!(decimal_string(n), n.to_string());
        n += 37;
    }
}
