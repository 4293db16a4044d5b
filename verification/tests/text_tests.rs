use telefax::text::{chars_of, contains, parse_i64, parse_usize, remove_occurrences, render_decimal, string_from_chars, trim};

fn s(v: &[char]) -> String {
    string_from_chars(v)
}

#[test]
fn trim_removes_unicode_white_space() {
    assert_eq!(s(&trim(&chars_of("\u{a0} a b \u{3000}\n"))), "a b");
    assert_eq!(s(&trim(&chars_of("   "))), "");
    assert_eq!(s(&trim(&chars_of("x"))), "x");
    let once = trim(&chars_of(" \t a \n"));
    assert_eq!(trim(&once), once);
}

#[test]
fn integers_parse_as_std_parses_them() {
    for text in ["0", "+7", "-7", "007", "", "+", "-", "1 ", "9223372036854775807", "9223372036854775808", "-9223372036854775808", "-9223372036854775809", "18446744073709551615", "18446744073709551616"] {
        assert_eq!(parse_i64(&chars_of(text)), text.parse::<i64>().ok(), "{:?}", text);
        assert_eq!(parse_usize(&chars_of(text)), text.parse::<usize>().ok(), "{:?}", text);
    }
}

#[test]
fn decimals_render_as_display_does() {
    for n in [0u128, 7, 10, 99, 100, 123456789, u128::MAX] {
        assert_eq!(s(&render_decimal(n)), n.to_string());
    }
}

#[test]
fn substring_search_and_removal() {
    assert!(contains(&chars_of("You must Please wait now"), &chars_of("Please wait")));
    assert!(!contains(&chars_of("Please wai"), &chars_of("Please wait")));
    assert!(contains(&chars_of("abc"), &chars_of("")));
    for text in ["4.00", "4.50", "10.00", ".00.00", "1.000", "..00", ""] {
        assert_eq!(s(&remove_occurrences(&chars_of(text), &chars_of(".00"))), text.replace(".00", ""), "{:?}", text);
    }
}
