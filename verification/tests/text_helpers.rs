use deagle::text::{first_line, join_words, split_words, str_contains};

#[test]
fn first_line_stops_at_newline() {
    assert_eq!(first_line("abc\r\ndef"), "abc");
    assert_eq!(first_line("abc\ndef"), "abc");
    assert_eq!(first_line(""), "");
    assert_eq!(first_line("\nrest"), "");
    assert_eq!(first_line("x\r"), "x\r");
    assert_eq!(first_line("only"), "only");
}

#[test]
fn words_split_on_any_white_space() {
    assert_eq!(split_words("  a\tbb \u{3000} c\n"), vec!["a", "bb", "c"]);
    assert!(split_words(" \n ").is_empty());
    let ws = split_words("x  y");
    assert_eq!(join_words(&ws), "x y");
}

#[test]
fn str_contains_finds_substrings() {
    assert!(str_contains("static final int X", "final"));
    assert!(str_contains("abc", ""));
    assert!(str_contains("", ""));
    assert!(!str_contains("ab", "abc"));
    assert!(!str_contains("static", "final"));
    assert!(str_contains("héllo wörld", "ö"));
}
