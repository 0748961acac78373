use mintybot::text::{
    ascii_lower_char, chars_equal, decimal_string, from_chars, is_whitespace_char, push_decimal,
    starts_with, starts_with_at, str_equal, str_is_empty, string_of_range, subvec, to_chars,
    trim_bounds, trim_str, trimmed_chars, trimmed_rest,
};

#[test]
fn whitespace_test_agrees_with_the_standard_library_on_every_character() {
    let mut code: u32 = 0;
    while code <= 0x10ffff {
        if let Some(c) = char::from_u32(code) {
            assert_eq!(is_whitespace_char(c), c.is_whitespace(), "U+{:04X}", code);
        }
        code += 1;
    }
}

#[test]
fn ascii_lower_agrees_with_the_standard_library_on_every_character() {
    let mut code: u32 = 0;
    while code <= 0x10ffff {
        if let Some(c) = char::from_u32(code) {
            assert_eq!(ascii_lower_char(c), c.to_ascii_lowercase(), "U+{:04X}", code);
        }
        code += 1;
    }
}

#[test]
fn trim_agrees_with_the_standard_library() {
    let inputs = [
        "", " ", "   ", "a", " a", "a ", "  a b  ", "\t\n x \r\n", "\u{3000}가 나\u{a0}",
        "\u{2003}<model>  gpt-x \u{85}", "no-space", " \u{200b} ",
    ];
    for input in inputs {
        assert_eq!(trim_str(input), input.trim(), "{:?}", input);
        let expected: Vec<char> = input.trim().chars().collect();
        assert_eq!(trimmed_chars(input), expected, "{:?}", input);
    }
}

#[test]
fn trim_bounds_give_the_range_without_outer_whitespace() {
    let v: Vec<char> = "xx  ab c  yy".chars().collect();
    assert_eq!(trim_bounds(&v, 2, 10), (4, 8));
    assert_eq!(trim_bounds(&v, 2, 4), (4, 4));
    assert_eq!(trim_bounds(&v, 0, v.len()), (0, 12));
    assert_eq!(trim_bounds(&v, 5, 5), (5, 5));
}

#[test]
fn chars_round_trip_through_strings() {
    let s = "héllo 세계 🙂";
    let v = to_chars(s);
    assert_eq!(v.len(), 10);
    assert_eq!(from_chars(&v), s);
    assert_eq!(string_of_range(&v, 6, 8), "세계");
    assert_eq!(subvec(&v, 0, 5), vec!['h', 'é', 'l', 'l', 'o']);
    assert_eq!(string_of_range(&v, 3, 3), "");
}

#[test]
fn prefix_tests() {
    let v = to_chars("<model> gpt");
    assert!(starts_with(&v, &to_chars("<model>")));
    assert!(starts_with(&v, &to_chars("")));
    assert!(!starts_with(&v, &to_chars("<model> gpt-x")));
    assert!(!starts_with(&v, &to_chars("<Model>")));
    assert!(starts_with_at(&v, 8, &to_chars("gpt")));
    assert!(!starts_with_at(&v, 9, &to_chars("gpt")));
    assert!(starts_with_at(&v, v.len(), &to_chars("")));
    assert_eq!(trimmed_rest(&v, 7), "gpt");
    assert_eq!(trimmed_rest(&v, v.len()), "");
}

#[test]
fn equality_tests() {
    assert!(chars_equal(&to_chars("abc"), &to_chars("abc")));
    assert!(!chars_equal(&to_chars("abc"), &to_chars("abd")));
    assert!(!chars_equal(&to_chars("abc"), &to_chars("ab")));
    assert!(!chars_equal(&to_chars("ab"), &to_chars("abc")));
    assert!(chars_equal(&to_chars(""), &to_chars("")));
    assert!(str_equal("completed", "completed"));
    assert!(!str_equal("completed", "Completed"));
    assert!(str_is_empty(""));
    assert!(!str_is_empty(" "));
}

#[test]
fn decimal_forms() {
    assert_eq!(decimal_string(0), "0");
    assert_eq!(decimal_string(7), "7");
    assert_eq!(decimal_string(10), "10");
    assert_eq!(decimal_string(300), "300");
    assert_eq!(decimal_string(1234567890), "1234567890");
    assert_eq!(decimal_string(u64::MAX), "18446744073709551615");
    let mut s = String::from("n=");
    push_decimal(&mut s, 42);
    assert_eq!(s, "n=42");
}
