use deagle::pattern::{search_pattern, sg_step, try_search_pattern, SgAction, SgStage};
use deagle::Language;

const SAMPLE: &str = r#"
fn hello() {
    println!("hello");
}

fn add(a: i32, b: i32) -> i32 {
    a + b
}

pub fn process() {
    let x = Some(42);
    let val = x.unwrap();
    let name = "test".to_string();
}

struct Config {
    name: String,
}

impl Config {
    fn new(name: &str) -> Self {
        Self { name: name.to_string() }
    }
}
"#;

#[test]
fn test_find_unwrap_calls() {
    let path = "test.rs";
    let matches = search_pattern(path, SAMPLE, "$X.unwrap()", Language::Rust).unwrap();
    assert!(
        !matches.is_empty(),
        "should find .unwrap() calls, got 0 matches"
    );
    assert!(matches[0].text.contains("unwrap"));
}

#[test]
fn test_find_functions() {
    let path = "test.rs";
    let matches = search_pattern(path, SAMPLE, "fn $NAME() { $$$ }", Language::Rust).unwrap();
    assert!(
        !matches.is_empty(),
        "should find zero-arg functions"
    );
}

#[test]
fn test_find_struct_definitions() {
    let path = "test.rs";
    let matches = search_pattern(path, SAMPLE, "struct $NAME { $$$ }", Language::Rust).unwrap();
    assert!(
        !matches.is_empty(),
        "should find struct definitions"
    );
    assert!(matches[0].text.contains("Config"));
}

#[test]
fn test_no_matches() {
    let path = "test.rs";
    let matches = search_pattern(path, SAMPLE, "async fn $NAME() { $$$ }", Language::Rust).unwrap();
    assert!(matches.is_empty(), "should find no async functions");
}

#[test]
fn test_unsupported_language_returns_empty() {
    let path = "test.py";
    let matches = search_pattern(path, "def hello(): pass", "def $NAME(): $$$", Language::Python).unwrap();
    assert!(matches.is_empty(), "unsupported language returns empty for now");
}

#[test]
fn test_match_has_location() {
    let path = "test.rs";
    let matches = search_pattern(path, SAMPLE, "$X.unwrap()", Language::Rust).unwrap();
    if !matches.is_empty() {
        assert!(matches[0].line_start > 0, "line should be 1-indexed");
        assert_eq!(matches[0].file_path, "test.rs");
    }
}

#[test]
fn unwrap_match_lies_on_its_line() {
    let matches = search_pattern("test.rs", SAMPLE, "$X.unwrap()", Language::Rust).unwrap();
    assert_eq!(matches.len(), 1);
    assert_eq!(matches[0].text, "x.unwrap()");
    assert_eq!(matches[0].line_start, 12);
    assert_eq!(matches[0].line_end, 12);
    assert_eq!(matches[0].col_start, 14);
}

#[test]
fn multi_line_match_spans_its_lines() {
    let matches = search_pattern("test.rs", SAMPLE, "struct $NAME { $$$ }", Language::Rust).unwrap();
    assert_eq!(matches.len(), 1);
    assert_eq!(matches[0].line_start, 16);
    assert_eq!(matches[0].line_end, 18);
}

#[test]
fn lines_count_bytes_of_wide_characters() {
    let src = "// é ü ß\nfn f() { let y = z.unwrap(); }\n";
    let matches = search_pattern("w.rs", src, "$X.unwrap()", Language::Rust).unwrap();
    assert_eq!(matches.len(), 1);
    assert_eq!(matches[0].line_start, 2);
}

#[test]
fn rejected_pattern_is_reported_not_searched() {
    assert!(try_search_pattern("test.rs", SAMPLE, "", Language::Rust).is_none());
    let r = try_search_pattern("test.rs", SAMPLE, "$X.unwrap()", Language::Rust).unwrap().unwrap();
    assert_eq!(r.len(), 1);
    let py = try_search_pattern("a.py", "x = 1", "", Language::Python).unwrap().unwrap();
    assert!(py.is_empty());
}

#[test]
fn directory_search_steps() {
    let (s, a) = sg_step(SgStage::Start, "pub enum Foo", 0);
    assert_eq!(s, SgStage::Searched);
    assert!(matches!(a, SgAction::Search(ref p) if p == "pub enum Foo"));
    let (s, a) = sg_step(s, "pub enum Foo", 0);
    assert_eq!(s, SgStage::SearchedCompleted);
    assert!(matches!(a, SgAction::Search(ref p) if p == "pub enum Foo { $$$ }"));
    let (s, a) = sg_step(s, "pub enum Foo", 0);
    assert_eq!(s, SgStage::Finished);
    assert!(matches!(a, SgAction::TextFallback));
    let (s, a) = sg_step(s, "pub enum Foo", 0);
    assert_eq!(s, SgStage::Finished);
    assert!(matches!(a, SgAction::Done));
    let (s, a) = sg_step(SgStage::Searched, "$X.unwrap()", 3);
    assert_eq!(s, SgStage::Finished);
    assert!(matches!(a, SgAction::Done));
    let (_, a) = sg_step(SgStage::Searched, "$X.unwrap()", 0);
    assert!(matches!(a, SgAction::TextFallback));
}

#[test]
fn match_reports_its_start_column() {
    let content = "fn f() {\n    let v = x.unwrap();\n}\n";
    let ms = search_pattern("t.rs", content, "$X.unwrap()", Language::Rust).unwrap();
    assert_eq!(ms.len(), 1);
    assert_eq!(ms[0].text, "x.unwrap()");
    assert_eq!((ms[0].line_start, ms[0].line_end, ms[0].col_start), (2, 2, 12));
}

#[test]
fn column_counts_bytes_from_line_start() {
    let content = "fn g() { let é = y.unwrap(); }\n";
    let ms = search_pattern("w.rs", content, "$X.unwrap()", Language::Rust).unwrap();
    assert_eq!(ms.len(), 1);
    assert_eq!(ms[0].line_start, 1);
    assert_eq!(ms[0].col_start, 18);
}
