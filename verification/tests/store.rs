use deagle::store::{content_hash, fuzzy_rank, is_stale, like_pattern, resolve_edges, NodeRow};
use deagle::{EdgeKind, Language, Node, NodeKind};
use fuzzy_matcher::FuzzyMatcher;

fn node(name: &str, file: &str) -> Node {
    Node {
        id: 0,
        name: name.to_string(),
        kind: NodeKind::Function,
        language: Language::Rust,
        file_path: file.to_string(),
        line_start: 1,
        line_end: 1,
        content: None,
    }
}

#[test]
fn node_row_holds_stored_names() {
    let n = Node {
        id: 7,
        name: "parse".into(),
        kind: NodeKind::TypeAlias,
        language: Language::Go,
        file_path: "a/b.go".into(),
        line_start: 3,
        line_end: 9,
        content: Some("type X = Y".into()),
    };
    let row = NodeRow::of_node(&n);
    assert_eq!(row.kind, "type_alias");
    assert_eq!(row.language, "go");
    assert_eq!(row.name, "parse");
    assert_eq!(row.file_path, "a/b.go");
    assert_eq!(row.content.as_deref(), Some("type X = Y"));
    assert_eq!((row.id, row.line_start, row.line_end), (7, 3, 9));
}

#[test]
fn like_pattern_wraps_query() {
    assert_eq!(like_pattern("proc"), "%proc%");
    assert_eq!(like_pattern(""), "%%");
}

#[test]
fn like_pattern_escapes_wildcards() {
    assert_eq!(like_pattern("a_b"), "%a\\_b%");
    assert_eq!(like_pattern("100%"), "%100\\%%");
    assert_eq!(like_pattern("x\\y"), "%x\\\\y%");
}

#[test]
fn fuzzy_ranking_puts_best_match_first() {
    let nodes = vec![
        node("handle_response", "lib.rs"),
        node("parse_input", "lib.rs"),
        node("process_request", "lib.rs"),
        node("validate_data", "lib.rs"),
    ];
    let ranked = fuzzy_rank(nodes, "proc");
    assert!(!ranked.is_empty(), "fuzzy search should find matches");
    assert_eq!(ranked[0].name, "process_request", "best match should be first");
}

#[test]
fn fuzzy_ranking_drops_non_matches() {
    let nodes = vec![node("hello", "t.rs")];
    assert!(fuzzy_rank(nodes, "zzzzz").is_empty());
    assert!(fuzzy_rank(Vec::new(), "anything").is_empty());
}

#[test]
fn fuzzy_ranking_keeps_order_of_ties() {
    let nodes = vec![node("new", "a.rs"), node("new", "b.rs"), node("new", "c.rs")];
    let ranked = fuzzy_rank(nodes, "new");
    let files: Vec<_> = ranked.iter().map(|n| n.file_path.as_str()).collect();
    assert_eq!(files, vec!["a.rs", "b.rs", "c.rs"]);
}

#[test]
fn content_hash_is_sha256_prefix() {
    assert_eq!(content_hash(""), "e3b0c44298fc1c14");
    assert_eq!(content_hash("abc"), "ba7816bf8f01cfea");
    assert_eq!(content_hash("fn main() {}").len(), 16);
}

#[test]
fn staleness_follows_recorded_hash() {
    let c = "fn main() {}";
    assert!(is_stale(None, c), "new file needs indexing");
    let h = content_hash(c);
    assert!(!is_stale(Some(&h), c), "same content skipped");
    assert!(is_stale(Some(&h), "fn main() { println!() }"), "changed content needs re-index");
}

#[test]
fn edges_resolve_to_stored_ids() {
    let edges = vec![(0, 1, EdgeKind::Contains), (0, 5, EdgeKind::Calls), (1, 2, EdgeKind::Imports)];
    let ids = vec![10, 20, -1];
    assert_eq!(resolve_edges(&edges, &ids), vec![(10, 20, EdgeKind::Contains)]);
}

#[test]
fn fuzzy_ranking_lists_each_match_once_best_first() {
    let names = ["process_request", "parse_input", "proc", "handle_response", "processor", "zzz"];
    let nodes: Vec<Node> = names.iter().map(|n| node(n, "lib.rs")).collect();
    let ranked = fuzzy_rank(nodes, "proc");
    let m = fuzzy_matcher::skim::SkimMatcherV2::default();
    let matching: Vec<&str> = names.iter().copied().filter(|n| m.fuzzy_match(n, "proc").is_some()).collect();
    assert_eq!(ranked.len(), matching.len());
    for n in &matching {
        assert_eq!(ranked.iter().filter(|r| r.name == *n).count(), 1);
    }
    let scores: Vec<i64> = ranked.iter().map(|r| m.fuzzy_match(&r.name, "proc").unwrap()).collect();
    assert!(scores.windows(2).all(|w| w[0] >= w[1]));
}
