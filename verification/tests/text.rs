use notion_to_day_one::text::{
    chars_of, copy_range, find_char, split_lines, starts_with, string_of, trim,
};

fn chars(s: &str) -> Vec<char> {
    s.chars().collect()
}

fn lines_of(s: &str) -> Vec<String> {
    split_lines(&chars(s)).iter().map(|line| line.iter().collect()).collect()
}

#[test]
fn chars_and_strings_convert_both_ways() {
    assert_eq!(chars_of("a\u{e9}\u{4e2d}"), vec!['a', '\u{e9}', '\u{4e2d}']);
    assert_eq!(chars_of(""), Vec::<char>::new());
    assert_eq!(string_of(&['a', '\u{e9}', '\u{4e2d}']), "a\u{e9}\u{4e2d}");
    assert_eq!(string_of(&[]), "");
}

#[test]
fn copy_range_copies_the_range() {
    assert_eq!(copy_range(&chars("hello"), 1, 3), chars("el"));
    assert_eq!(copy_range(&chars("hello"), 2, 2), chars(""));
    assert_eq!(copy_range(&chars("hello"), 0, 5), chars("hello"));
}

#[test]
fn find_char_finds_the_first() {
    assert_eq!(find_char(&chars("a(b(c"), '(', 0), 1);
    assert_eq!(find_char(&chars("a(b(c"), '(', 2), 3);
    assert_eq!(find_char(&chars("a(b(c"), '(', 4), 5);
    assert_eq!(find_char(&chars("a(b(c"), ')', 0), 5);
    assert_eq!(find_char(&chars(""), ')', 0), 0);
}

#[test]
fn starts_with_tells_prefixes() {
    assert!(starts_with(&chars("![x]"), &chars("![")));
    assert!(starts_with(&chars("!["), &chars("![")));
    assert!(starts_with(&chars("abc"), &chars("")));
    assert!(!starts_with(&chars("!"), &chars("![")));
    assert!(!starts_with(&chars("!x["), &chars("![")));
    assert!(!starts_with(&chars(""), &chars("![")));
}

#[test]
fn trim_cuts_white_space_at_both_ends() {
    assert_eq!(trim(&chars("  a b \t")), chars("a b"));
    assert_eq!(trim(&chars("\u{a0}\u{3000}x\u{2003}")), chars("x"));
    assert_eq!(trim(&chars("   ")), chars(""));
    assert_eq!(trim(&chars("")), chars(""));
    assert_eq!(trim(&chars("a")), chars("a"));
    assert_eq!(trim(&chars("\u{200b}a")), chars("\u{200b}a"));
}

#[test]
fn trim_agrees_with_the_standard_library() {
    for text in ["  a b \t", "\r\n x \n", "\u{a0}\u{3000}x\u{2003}", "    ![a](b)  ", "", " "] {
        assert_eq!(trim(&chars(text)), chars(text.trim()));
    }
}

#[test]
fn lines_end_at_line_feeds() {
    assert_eq!(lines_of("a\nb"), vec!["a", "b"]);
    assert_eq!(lines_of("a\nb\n"), vec!["a", "b"]);
    assert_eq!(lines_of("a\n\nb"), vec!["a", "", "b"]);
    assert_eq!(lines_of("\n"), vec![""]);
    assert_eq!(lines_of("\n\n"), vec!["", ""]);
    assert_eq!(lines_of(""), Vec::<String>::new());
    assert_eq!(lines_of("a"), vec!["a"]);
}

#[test]
fn carriage_returns_count_only_before_line_feeds() {
    assert_eq!(lines_of("a\r\nb\r\n"), vec!["a", "b"]);
    assert_eq!(lines_of("a\rb\n"), vec!["a\rb"]);
    assert_eq!(lines_of("a\r"), vec!["a\r"]);
    assert_eq!(lines_of("a\r\r\n"), vec!["a\r"]);
    assert_eq!(lines_of("\r\n"), vec![""]);
}

#[test]
fn lines_agree_with_the_standard_library() {
    for text in ["", "\n", "a", "a\n", "a\r\n", "a\r", "a\n\nb\r\n\r\nc", "\r\n\r", "x\r\r\ny\n\r"] {
        let expected: Vec<String> = text.lines().map(|line| line.to_owned()).collect();
        assert_eq!(lines_of(text), expected);
    }
}
