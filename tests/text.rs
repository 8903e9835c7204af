use slackbot::text::{join_by, parse_usize, same_text, split_by, split_words, trim_end_of, trim_space};

#[test]
fn split_keeps_empty_pieces() {
    assert_eq!(split_by("a  b", ' '), vec!["a", "", "b"]);
    assert_eq!(split_by("", ' '), vec![""]);
    assert_eq!(split_by("x`y`z", '`'), vec!["x", "y", "z"]);
}

#[test]
fn split_on_white_space() {
    assert_eq!(split_words("a\tb c"), vec!["a", "b", "c"]);
    assert_eq!(split_words("a \n b"), vec!["a", "", "", "b"]);
    assert_eq!(split_words(""), vec![""]);
}

#[test]
fn join_and_trim() {
    let parts = vec!["a".to_string(), "b".to_string(), "c".to_string()];
    assert_eq!(join_by(&parts, " "), "a b c");
    assert_eq!(join_by(&Vec::new(), " "), "");
    assert_eq!(trim_space("  a b \t\n"), "a b");
    assert_eq!(trim_space("   "), "");
    assert_eq!(trim_end_of("a@b.com>>", '>'), "a@b.com");
}

#[test]
fn decimal_numbers() {
    assert_eq!(parse_usize("42"), Some(42));
    assert_eq!(parse_usize("+7"), Some(7));
    assert_eq!(parse_usize("0"), Some(0));
    assert_eq!(parse_usize(""), None);
    assert_eq!(parse_usize("+"), None);
    assert_eq!(parse_usize("4a"), None);
    assert_eq!(parse_usize("99999999999999999999999999"), None);
    assert_eq!(parse_usize(&usize::MAX.to_string()), Some(usize::MAX));
}

#[test]
fn text_equality() {
    assert!(same_text("rules", "rules"));
    assert!(!same_text("rules", "rule"));
    assert!(!same_text("abc", "abd"));
}
