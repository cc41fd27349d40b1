use tuggy::text::{chars_less, join_strings, join_strs, lines_of, split_str};

#[test]
fn split_str_splits_at_every_separator() {
    assert_eq!(
        split_str("linux/amd64, linux/arm64, linux/386", ", "),
        vec!["linux/amd64", "linux/arm64", "linux/386"]
    );
    assert_eq!(split_str("a", ", "), vec!["a"]);
    assert_eq!(split_str("", ", "), vec![""]);
    assert_eq!(split_str("a, , b, ", ", "), vec!["a", "", "b", ""]);
    assert_eq!(split_str("a,,b", ","), vec!["a", "", "b"]);
}

#[test]
fn split_str_agrees_with_std() {
    for (s, sep) in [("x, y,z, ", ", "), ("aaa", "aa"), (",", ","), ("abc", "d")] {
        let expected: Vec<String> = s.split(sep).map(|p| p.to_string()).collect();
        assert_eq!(split_str(s, sep), expected);
    }
}

#[test]
fn lines_of_agrees_with_std() {
    for s in ["", "a", "a\n", "a\r\nb\n", "a\rb", "x\n\ny", "\n", "tail\r", "a\r\r\nb"] {
        let expected: Vec<String> = s.lines().map(|l| l.to_string()).collect();
        assert_eq!(lines_of(s), expected, "input {:?}", s);
    }
}

#[test]
fn join_strs_puts_separator_between() {
    assert_eq!(join_strs(&["a", "b", "c"], "|"), "a|b|c");
    assert_eq!(join_strs(&["a"], "|"), "a");
    assert_eq!(join_strs(&[], "|"), "");
}

#[test]
fn join_strings_joins_a_range() {
    let v: Vec<String> = vec!["a".into(), "b".into(), "c".into(), "d".into()];
    assert_eq!(join_strings(&v, 1, 3, ","), "b,c");
    assert_eq!(join_strings(&v, 2, 2, ","), "");
    assert_eq!(join_strings(&v, 0, 4, ", "), "a, b, c, d");
}

#[test]
fn chars_less_is_lexicographic() {
    let a: Vec<char> = "abc".chars().collect();
    let b: Vec<char> = "abd".chars().collect();
    let c: Vec<char> = "ab".chars().collect();
    assert!(chars_less(&a, &b));
    assert!(!chars_less(&b, &a));
    assert!(chars_less(&c, &a));
    assert!(!chars_less(&a, &a));
}
