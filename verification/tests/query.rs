use deagle::pattern::suggest_pattern_completion;
use deagle::query::{rg_language, sanitize_fts5_query, search_language, select_nodes};
use deagle::{Language, Node, NodeKind};

fn node(name: &str, kind: NodeKind, language: Language, file: &str) -> Node {
    Node {
        id: 0,
        name: name.to_string(),
        kind,
        language,
        file_path: file.to_string(),
        line_start: 1,
        line_end: 2,
        content: None,
    }
}

#[test]
fn fts_alternation_becomes_or() {
    assert_eq!(sanitize_fts5_query("foo\\|bar\\|baz"), "foo OR bar OR baz");
    assert_eq!(sanitize_fts5_query("foo|bar|baz"), "foo OR bar OR baz");
}

#[test]
fn fts_operators_are_dropped() {
    assert_eq!(sanitize_fts5_query("fn(x: i32)"), "fn x i32");
    assert_eq!(sanitize_fts5_query("\"quoted\" -neg *star"), "quoted neg star");
}

#[test]
fn fts_white_space_collapses() {
    assert_eq!(sanitize_fts5_query("  alpha \t\n beta  "), "alpha beta");
    assert_eq!(sanitize_fts5_query("   "), "");
    assert_eq!(sanitize_fts5_query("single"), "single");
}

#[test]
fn fts_sanitizing_twice_changes_nothing() {
    for q in ["a\\|b|c", "x: (y) - z*", "  p  q ", "|", "OR"] {
        let once = sanitize_fts5_query(q);
        assert_eq!(sanitize_fts5_query(&once), once);
    }
}

#[test]
fn completion_adds_bodies() {
    assert_eq!(suggest_pattern_completion("pub enum Foo").as_deref(), Some("pub enum Foo { $$$ }"));
    assert_eq!(suggest_pattern_completion("struct Foo").as_deref(), Some("struct Foo { $$$ }"));
    assert_eq!(suggest_pattern_completion("pub trait Foo").as_deref(), Some("pub trait Foo { $$$ }"));
    assert_eq!(suggest_pattern_completion("fn foo").as_deref(), Some("fn foo($$$) { $$$ }"));
    assert_eq!(suggest_pattern_completion("async fn foo").as_deref(), Some("async fn foo($$$) { $$$ }"));
    assert_eq!(suggest_pattern_completion("impl Trait for Foo").as_deref(), Some("impl Trait for Foo { $$$ }"));
    assert_eq!(suggest_pattern_completion("  pub struct Foo  ").as_deref(), Some("pub struct Foo { $$$ }"));
}

#[test]
fn completion_leaves_complete_or_unknown_patterns() {
    assert_eq!(suggest_pattern_completion("struct Foo { $$$ }"), None);
    assert_eq!(suggest_pattern_completion("foo(x)"), None);
    assert_eq!(suggest_pattern_completion("let x"), None);
    assert_eq!(suggest_pattern_completion(""), None);
    let done = suggest_pattern_completion("fn foo").unwrap();
    assert_eq!(suggest_pattern_completion(&done), None);
}

#[test]
fn filters_by_kind_language_and_path() {
    let nodes = vec![
        node("a", NodeKind::Function, Language::Rust, "crates/foo/src/lib.rs"),
        node("b", NodeKind::Struct, Language::Rust, "crates/bar/src/lib.rs"),
        node("c", NodeKind::Function, Language::Python, "app/main.py"),
        node("d", NodeKind::Function, Language::TypeScript, "web/index.ts"),
    ];
    let none: Vec<String> = Vec::new();
    let f = select_nodes(nodes.clone(), Some("function"), None, &none);
    assert_eq!(f.iter().map(|n| n.name.as_str()).collect::<Vec<_>>(), vec!["a", "c", "d"]);
    let r = select_nodes(nodes.clone(), None, Some("RS"), &none);
    assert_eq!(r.iter().map(|n| n.name.as_str()).collect::<Vec<_>>(), vec!["a", "b"]);
    let t = select_nodes(nodes.clone(), None, Some("type"), &none);
    assert_eq!(t.iter().map(|n| n.name.as_str()).collect::<Vec<_>>(), vec!["d"]);
    let p = select_nodes(nodes.clone(), None, None, &vec!["crates/foo/".to_string()]);
    assert_eq!(p.iter().map(|n| n.name.as_str()).collect::<Vec<_>>(), vec!["a"]);
    let abs = select_nodes(nodes.clone(), None, None, &vec!["/opt/work/app".to_string()]);
    assert_eq!(abs.iter().map(|n| n.name.as_str()).collect::<Vec<_>>(), vec!["c"]);
    let both = select_nodes(nodes, Some("function"), Some("rust"), &vec!["crates".to_string()]);
    assert_eq!(both.iter().map(|n| n.name.as_str()).collect::<Vec<_>>(), vec!["a"]);
}

#[test]
fn language_names_for_text_search() {
    assert_eq!(search_language("rust"), Language::Rust);
    assert_eq!(search_language("py"), Language::Python);
    assert_eq!(search_language("typescript"), Language::TypeScript);
    assert_eq!(search_language("rb"), Language::Ruby);
    assert_eq!(search_language("cobol"), Language::Unknown);
    assert_eq!(rg_language("c++"), Language::Cpp);
    assert_eq!(rg_language("java"), Language::Java);
    assert_eq!(rg_language("javascript"), Language::JavaScript);
    assert_eq!(rg_language("c"), Language::C);
    assert_eq!(rg_language("go"), Language::Go);
}

#[test]
fn fts_dangling_or_is_dropped() {
    assert_eq!(sanitize_fts5_query("foo|"), "foo");
    assert_eq!(sanitize_fts5_query("|foo"), "foo");
    assert_eq!(sanitize_fts5_query("a||b"), "a OR b");
    assert_eq!(sanitize_fts5_query("a\\|"), "a");
    assert_eq!(sanitize_fts5_query("|"), "");
    assert_eq!(sanitize_fts5_query("x OR"), "x");
    assert_eq!(sanitize_fts5_query("x OR y"), "x OR y");
}
