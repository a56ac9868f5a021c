use perry_passes::text::{
    chars_of, dec_signed, dec_text, indent, join_strings, lines_of, pad_levels, str_eq, strip_prefix,
};

#[test]
fn decimal_texts() {
    for n in [0u64, 1, 9, 10, 19, 100, 12345, u64::MAX] {
        assert_eq!(dec_text(n), n.to_string());
    }
    for n in [0i64, 7, -7, i64::MAX, i64::MIN] {
        assert_eq!(dec_signed(n), n.to_string());
    }
    assert_ne!(dec_text(12), dec_text(21));
}

#[test]
fn lines_end_at_line_feeds() {
    for s in ["", "a", "a\n", "\n", "a\nb", "a\r\nb\r", "a\n\nb\n", "\r\n", "a\rb", "é\r\n\n"] {
        let expected: Vec<String> = s.lines().map(|l| l.to_string()).collect();
        assert_eq!(lines_of(s), expected, "{:?}", s);
    }
}

#[test]
fn indentation_goes_before_every_line() {
    assert_eq!(indent("a\nb", "  "), "  a\n  b");
    assert_eq!(indent("", "  "), "");
    assert_eq!(indent("a\n", "  "), "  a");
    assert_eq!(pad_levels(0), "");
    assert_eq!(pad_levels(2), "        ");
}

#[test]
fn strings_are_joined_and_stripped() {
    let v = vec!["a".to_string(), "b".to_string(), "c".to_string()];
    assert_eq!(join_strings(&v, ", "), "a, b, c");
    assert_eq!(join_strings(&vec![], ", "), "");
    assert_eq!(strip_prefix("@app.media/x", "@app.media/"), Some("x".to_string()));
    assert_eq!(strip_prefix("app", "@app"), None);
    assert_eq!(strip_prefix("ab", "abc"), None);
    assert!(str_eq("é", "é"));
    assert!(!str_eq("e", "é"));
    assert!(!str_eq("a", "ab"));
    assert_eq!(chars_of("aé😀"), vec!['a', 'é', '😀']);
}
