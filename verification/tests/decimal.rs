use cliphist::decimal::{parse_u64, u64_to_string};
use cliphist::scan::find_char;
use cliphist::text::{chars_of, text_of};

#[test]
fn writes_decimal_notation() {
    assert_eq!(u64_to_string(0), "0");
    assert_eq!(u64_to_string(7), "7");
    assert_eq!(u64_to_string(10), "10");
    assert_eq!(u64_to_string(1203), "1203");
    assert_eq!(u64_to_string(u64::MAX), "18446744073709551615");
    assert_eq!(u64_to_string(u64::MAX - 1), "18446744073709551614");
}

#[test]
fn reads_decimal_notation_within_a_range() {
    let chars: Vec<char> = "ab+123cd".chars().collect();
    assert_eq!(parse_u64(&chars, 2, 6), Some(123));
    assert_eq!(parse_u64(&chars, 3, 6), Some(123));
    assert_eq!(parse_u64(&chars, 3, 4), Some(1));
    assert_eq!(parse_u64(&chars, 2, 3), None);
    assert_eq!(parse_u64(&chars, 3, 3), None);
    assert_eq!(parse_u64(&chars, 0, 6), None);
    assert_eq!(parse_u64(&chars, 3, 8), None);
}

#[test]
fn reading_what_was_written_gives_the_number_back() {
    for n in [0u64, 1, 9, 10, 99, 100, 4096, 1 << 32, u64::MAX / 10, u64::MAX - 1, u64::MAX] {
        let chars = chars_of(&u64_to_string(n));
        assert_eq!(parse_u64(&chars, 0, chars.len()), Some(n));
    }
}

#[test]
fn overflow_is_detected_at_every_digit() {
    for text in ["18446744073709551616", "18446744073709551620", "28446744073709551615", "184467440737095516150"] {
        let chars = chars_of(text);
        assert_eq!(parse_u64(&chars, 0, chars.len()), None);
    }
}

#[test]
fn text_and_characters() {
    let chars = chars_of("a☕\tb");
    assert_eq!(chars, vec!['a', '☕', '\t', 'b']);
    assert_eq!(text_of(&chars, 0, 4), "a☕\tb");
    assert_eq!(text_of(&chars, 1, 2), "☕");
    assert_eq!(text_of(&chars, 2, 2), "");
    assert_eq!(chars_of(""), Vec::<char>::new());
}

#[test]
fn finds_first_occurrence_in_range() {
    let chars = chars_of("a\tb\tc");
    assert_eq!(find_char(&chars, 0, 5, '\t'), 1);
    assert_eq!(find_char(&chars, 2, 5, '\t'), 3);
    assert_eq!(find_char(&chars, 4, 5, '\t'), 5);
    assert_eq!(find_char(&chars, 0, 1, '\t'), 1);
    assert_eq!(find_char(&chars, 2, 2, '\t'), 2);
    assert_eq!(find_char(&chars, 0, 5, 'z'), 5);
}
