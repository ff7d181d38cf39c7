use unified_diff::split::split_on_newlines;

fn lines(s: &str) -> Vec<String> {
    split_on_newlines(s)
}

#[test]
fn empty_text_is_one_empty_line() {
    assert_eq!(lines(""), vec![String::new()]);
}

#[test]
fn no_newline_is_one_line() {
    assert_eq!(lines("abc"), vec!["abc".to_string()]);
}

#[test]
fn two_lines() {
    assert_eq!(lines("a\nb"), vec!["a".to_string(), "b".to_string()]);
}

#[test]
fn trailing_newline_keeps_empty_final_line() {
    assert_eq!(lines("a\n"), vec!["a".to_string(), String::new()]);
}

#[test]
fn lone_newline_is_two_empty_lines() {
    assert_eq!(lines("\n"), vec![String::new(), String::new()]);
}

#[test]
fn consecutive_newlines_keep_empty_lines() {
    assert_eq!(
        lines("a\n\nb"),
        vec!["a".to_string(), String::new(), "b".to_string()]
    );
}

#[test]
fn line_count_is_newline_count_plus_one() {
    assert_eq!(lines("a\nb\nc").len(), 3);
    assert_eq!(lines("no newline here").len(), 1);
}

#[test]
fn non_ascii_content_is_split_on_newlines_only() {
    assert_eq!(
        lines("caf\u{e9}\n\u{3b1}\u{3b2}"),
        vec!["caf\u{e9}".to_string(), "\u{3b1}\u{3b2}".to_string()]
    );
}
