use eustress_engine::text::{
    chars_eq, chars_lt, chars_of, decimal_string, is_whitespace, lowercase_ascii, push_str, str_eq,
    string_of, to_ascii_lower, trimmed, trimmed_end, zero_padded_string,
};

#[test]
fn pushing_appends_characters() {
    let mut s = String::from("ab");
    push_str(&mut s, "écd");
    assert_eq!(s, "abécd");
    assert_eq!(string_of(&chars_of("héllo")), "héllo");
    assert_eq!(chars_of("hé"), vec!['h', 'é']);
}

#[test]
fn numbers_print_in_decimal() {
    assert_eq!(decimal_string(0), "0");
    assert_eq!(decimal_string(90210), "90210");
    assert_eq!(decimal_string(u64::MAX), "18446744073709551615");
    assert_eq!(zero_padded_string(42, 5), "00042");
    assert_eq!(zero_padded_string(123456, 3), "123456");
}

#[test]
fn trimming_and_case() {
    assert_eq!(trimmed(&chars_of(" \t a b \n")), chars_of("a b"));
    assert_eq!(trimmed_end(&chars_of(" a ")), chars_of(" a"));
    assert!(is_whitespace('\u{3000}'));
    assert!(!is_whitespace('x'));
    assert_eq!(to_ascii_lower('Q'), 'q');
    assert_eq!(to_ascii_lower('É'), 'É');
    assert_eq!(lowercase_ascii("StEp"), chars_of("step"));
}

#[test]
fn comparisons() {
    assert!(str_eq("abc", "abc"));
    assert!(!str_eq("abc", "abd"));
    assert!(chars_eq(&chars_of("x"), &chars_of("x")));
    assert!(chars_lt(&chars_of("PO00001"), &chars_of("PO00002")));
    assert!(chars_lt(&chars_of("ab"), &chars_of("abc")));
    assert!(!chars_lt(&chars_of("b"), &chars_of("abc")));
    assert!(!chars_lt(&chars_of("a"), &chars_of("a")));
}
