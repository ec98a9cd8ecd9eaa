use zephyr_provision::text::{
    chars_of, decimal_nat_text, decimal_text, has_prefix, has_text, is_space_char, join_texts,
    trim,
};

#[test]
fn trimming_removes_white_space_at_both_ends_only() {
    assert_eq!(trim("  git version 2.43.0\n"), "git version 2.43.0");
    assert_eq!(trim("\t\r\n x y \u{a0}\u{3000}"), "x y");
    assert_eq!(trim(""), "");
    assert_eq!(trim(" \n\t"), "");
    assert_eq!(trim("plain"), "plain");
    assert_eq!(trim("é tude "), "é tude");
}

#[test]
fn white_space_is_what_the_standard_library_calls_white_space() {
    for code in 0u32..0x3100 {
        if let Some(c) = char::from_u32(code) {
            assert_eq!(is_space_char(c), c.is_whitespace(), "U+{:04X}", code);
        }
    }
}

#[test]
fn decimal_notation_of_integers() {
    assert_eq!(decimal_text(0), "0");
    assert_eq!(decimal_text(7), "7");
    assert_eq!(decimal_text(10), "10");
    assert_eq!(decimal_text(-1), "-1");
    assert_eq!(decimal_text(127), "127");
    assert_eq!(decimal_text(i32::MAX), "2147483647");
    assert_eq!(decimal_text(i32::MIN), "-2147483648");
    assert_eq!(decimal_nat_text(u64::MAX), "18446744073709551615");
    assert_eq!(decimal_nat_text(1000), "1000");
}

#[test]
fn searching_for_a_text_inside_another() {
    assert!(has_text("Status: install ok installed", "install ok installed"));
    assert!(!has_text("Status: deinstall ok config-files", "install ok installed"));
    assert!(has_text("abc", ""));
    assert!(has_text("", ""));
    assert!(!has_text("", "a"));
    assert!(!has_text("ab", "abc"));
    assert!(has_text("aab", "ab"));
    assert!(has_prefix("project(x)", "project("));
    assert!(!has_prefix(" project(x)", "project("));
    assert!(!has_prefix("proj", "project("));
    assert!(has_prefix("anything", ""));
}

#[test]
fn joining_texts_puts_the_separator_between_them() {
    let none: Vec<String> = vec![];
    assert_eq!(join_texts(&none, ", "), "");
    assert_eq!(join_texts(&vec!["a".to_string()], ", "), "a");
    assert_eq!(
        join_texts(&vec!["a".to_string(), "".to_string(), "c".to_string()], "; "),
        "a; ; c"
    );
}

#[test]
fn the_characters_of_a_text_come_in_order() {
    assert_eq!(chars_of("añb"), vec!['a', 'ñ', 'b']);
    assert_eq!(chars_of(""), Vec::<char>::new());
}
