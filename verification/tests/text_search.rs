use deagle::text_search::{compile_pattern, keeps_file, search_content, search_file, skips_dir};
use deagle::{DeagleError, Language};

#[test]
fn test_search_file_finds_pattern() {
    let content = b"fn hello() {\n    println!(\"world\");\n}\n// TODO: fix this\n";
    let path = "test.rs";
    let matches = search_file(path, content, "TODO").unwrap();
    assert_eq!(matches.len(), 1);
    assert_eq!(matches[0].line_number, 4);
    assert!(matches[0].line.contains("TODO"));
}

#[test]
fn test_search_file_regex() {
    let content = b"let x = 42;\nlet y = 100;\nlet z = 7;\n";
    let path = "test.rs";
    let matches = search_file(path, content, r"let \w+ = \d{3}").unwrap();
    assert_eq!(matches.len(), 1); // only y = 100 has 3 digits
    assert!(matches[0].line.contains("100"));
}

#[test]
fn test_search_file_no_matches() {
    let content = b"fn main() {}\n";
    let path = "test.rs";
    let matches = search_file(path, content, "FIXME").unwrap();
    assert!(matches.is_empty());
}

#[test]
fn test_search_file_multiple_matches() {
    let content = b"// TODO: first\nfn work() {}\n// TODO: second\n// TODO: third\n";
    let path = "test.rs";
    let matches = search_file(path, content, "TODO").unwrap();
    assert_eq!(matches.len(), 3);
}

#[test]
fn test_invalid_regex_returns_error() {
    let content = b"test\n";
    let path = "test.rs";
    let result = search_file(path, content, "[invalid");
    assert!(result.is_err());
}

#[test]
fn test_case_insensitive_pattern() {
    let content = b"let Result = Ok(42);\ntype result = i32;\n";
    let path = "test.rs";
    let matches = search_file(path, content, "(?i)result").unwrap();
    assert_eq!(matches.len(), 2);
}

#[test]
fn matched_lines_lose_trailing_space_only() {
    let content = b"  keep leading TODO   \r\nnothing\nTODO\n";
    let matches = search_file("a.txt", content, "TODO").unwrap();
    assert_eq!(matches.len(), 2);
    assert_eq!(matches[0].line, "  keep leading TODO");
    assert_eq!(matches[0].line_number, 1);
    assert_eq!(matches[1].line, "TODO");
    assert_eq!(matches[1].line_number, 3);
    assert_eq!(matches[1].file_path, "a.txt");
}

#[test]
fn invalid_regex_message_names_the_cause() {
    match search_file("x", b"a\n", "(") {
        Err(DeagleError::Other(m)) => assert!(m.starts_with("Invalid regex: ")),
        _ => panic!("expected an invalid regex error"),
    }
}

#[test]
fn compiled_pattern_searches_many_files() {
    let re = compile_pattern("fn ").unwrap();
    let (a, err) = search_content(&re, "a.rs", b"fn a() {}\nstruct S;\n");
    assert!(err.is_none());
    assert_eq!(a.len(), 1);
    let (b, _) = search_content(&re, "b.rs", b"struct T;\n");
    assert!(b.is_empty());
}

#[test]
fn walk_skips_hidden_and_build_dirs() {
    assert!(skips_dir(".git"));
    assert!(skips_dir("target"));
    assert!(skips_dir("node_modules"));
    assert!(skips_dir("vendor"));
    assert!(!skips_dir("src"));
    assert!(!skips_dir(""));
}

#[test]
fn language_filter_reads_extensions() {
    assert!(keeps_file("rs", Some(Language::Rust)));
    assert!(!keeps_file("py", Some(Language::Rust)));
    assert!(keeps_file("anything", None));
}
