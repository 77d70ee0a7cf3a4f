use runslate::text::{
    chars_of, decimal_string, join, pad_left, pad_right, parse_u64, replace, same_text,
    starts_with, string_of, trim,
};

#[test]
fn a_text_and_its_characters_are_interchangeable() {
    assert_eq!(chars_of("a✔b"), vec!['a', '✔', 'b']);
    assert_eq!(string_of(&vec!['a', '✔', 'b']), "a✔b");
    assert_eq!(string_of(&chars_of("hello world")), "hello world");
    assert_eq!(string_of(&Vec::new()), "");
}

#[test]
fn texts_are_the_same_when_every_character_is() {
    assert!(same_text("", ""));
    assert!(same_text("abc", "abc"));
    assert!(!same_text("abc", "abd"));
    assert!(!same_text("abc", "ab"));
    assert!(!same_text("ab", "abc"));
}

#[test]
fn a_text_starts_with_each_of_its_prefixes() {
    assert!(starts_with("Auto-google", ""));
    assert!(starts_with("Auto-google", "Auto"));
    assert!(starts_with("Auto-google", "Auto-google"));
    assert!(!starts_with("Auto-google", "auto"));
    assert!(!starts_with("Auto", "Auto-google"));
}

#[test]
fn numbers_are_written_in_decimal() {
    assert_eq!(decimal_string(0), "0");
    assert_eq!(decimal_string(7), "7");
    assert_eq!(decimal_string(10), "10");
    assert_eq!(decimal_string(1_700_000_000), "1700000000");
    assert_eq!(decimal_string(u64::MAX), "18446744073709551615");
}

#[test]
fn numbers_are_read_from_decimal() {
    assert_eq!(parse_u64("0"), Some(0));
    assert_eq!(parse_u64("300"), Some(300));
    assert_eq!(parse_u64("007"), Some(7));
    assert_eq!(parse_u64("+42"), Some(42));
    assert_eq!(parse_u64("18446744073709551615"), Some(u64::MAX));
}

#[test]
fn what_is_no_number_is_not_read_as_one() {
    assert_eq!(parse_u64(""), None);
    assert_eq!(parse_u64("+"), None);
    assert_eq!(parse_u64("-1"), None);
    assert_eq!(parse_u64(" 1"), None);
    assert_eq!(parse_u64("1 "), None);
    assert_eq!(parse_u64("1_000"), None);
    assert_eq!(parse_u64("12a"), None);
    assert_eq!(parse_u64("++1"), None);
    assert_eq!(parse_u64("18446744073709551616"), None);
    assert_eq!(parse_u64("99999999999999999999999"), None);
}

#[test]
fn reading_a_number_agrees_with_the_standard_library() {
    for text in ["0", "+0", "1", "+", "", "-0", "٣", "1e3", "0x10", "184467440737095516150", "00000000000000000000001"] {
        assert_eq!(parse_u64(text), text.parse::<u64>().ok(), "{:?}", text);
    }
}

#[test]
fn trimming_removes_white_space_at_both_ends_only() {
    assert_eq!(trim("  hello world \n"), "hello world");
    assert_eq!(trim("\t\u{3000}x\u{a0}"), "x");
    assert_eq!(trim("x"), "x");
    assert_eq!(trim(""), "");
    assert_eq!(trim(" \n\t "), "");
    assert_eq!(trim("a b"), "a b");
}

#[test]
fn joining_puts_the_separator_between_neighbours() {
    let none: Vec<String> = Vec::new();
    assert_eq!(join(&none, ", "), "");
    assert_eq!(join(&vec![String::from("a")], ", "), "a");
    assert_eq!(join(&vec![String::from("a"), String::from("b"), String::from("c")], ", "), "a, b, c");
    assert_eq!(join(&vec![String::from(""), String::from("")], "-"), "-");
}

#[test]
fn padding_fills_up_to_the_width_and_never_cuts() {
    assert_eq!(pad_right("1.0", 6), "1.0   ");
    assert_eq!(pad_right("1.0", 3), "1.0");
    assert_eq!(pad_right("1024.0", 3), "1024.0");
    assert_eq!(pad_left("B", 2), " B");
    assert_eq!(pad_left("KB", 2), "KB");
    assert_eq!(pad_left("", 2), "  ");
    assert_eq!(pad_right("✔", 2), "✔ ");
}

#[test]
fn replacing_takes_occurrences_from_the_left() {
    assert_eq!(replace("a/b/c", "/", ", "), "a, b, c");
    assert_eq!(replace("hello world", " ", "%20"), "hello%20world");
    assert_eq!(replace("n. one\\nv. two", "\\n", "\n"), "n. one\nv. two");
    assert_eq!(replace("aaa", "aa", "b"), "ba");
    assert_eq!(replace("abc", "x", "y"), "abc");
    assert_eq!(replace("", "x", "y"), "");
    assert_eq!(replace("ab", "abc", "y"), "ab");
    assert_eq!(replace("ab", "", "y"), "ab");
    assert_eq!(replace("", "", "y"), "");
}

#[test]
fn replacing_agrees_with_the_standard_library() {
    for (text, from, to) in [("aaaa", "aa", "a"), ("abcabc", "bc", ""), ("//", "/", "//"), ("x y  z", " ", "%20")] {
        assert_eq!(replace(text, from, to), text.replace(from, to));
    }
}
