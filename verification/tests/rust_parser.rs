use deagle::rust_parser::{parse, parse_with_edges};
use deagle::{EdgeKind, Language, NodeKind};
const SAMPLE_RUST: &str = r#"
use std::collections::HashMap;

const MAX_SIZE: usize = 1024;

pub struct Config {
    name: String,
    values: HashMap<String, String>,
}

pub enum Status {
    Active,
    Inactive,
}

pub trait Processor {
    fn process(&self, input: &str) -> String;
}

impl Config {
    pub fn new(name: &str) -> Self {
        Self { name: name.to_string(), values: HashMap::new() }
    }

    pub fn get(&self, key: &str) -> Option<&String> {
        self.values.get(key)
    }
}

pub fn main() {
    let config = Config::new("test");
    println!("{:?}", config.get("key"));
}
"#;

#[test]
fn test_parse_rust_finds_all_definitions() {
    let path = "test.rs";
    let nodes = parse(path, SAMPLE_RUST).unwrap();

    let kinds: Vec<_> = nodes.iter().map(|n| n.kind).collect();
    assert!(kinds.contains(&NodeKind::Import), "should find use declaration");
    assert!(kinds.contains(&NodeKind::Constant), "should find const");
    assert!(kinds.contains(&NodeKind::Struct), "should find struct");
    assert!(kinds.contains(&NodeKind::Enum), "should find enum");
    assert!(kinds.contains(&NodeKind::Trait), "should find trait");
    assert!(kinds.contains(&NodeKind::Function), "should find function");
}

#[test]
fn test_parse_rust_finds_methods() {
    let path = "test.rs";
    let nodes = parse(path, SAMPLE_RUST).unwrap();

    let methods: Vec<_> = nodes.iter().filter(|n| n.kind == NodeKind::Method).collect();
    assert!(methods.len() >= 2, "should find impl methods (new, get), got {}", methods.len());
    assert!(methods.iter().any(|m| m.name == "new"));
    assert!(methods.iter().any(|m| m.name == "get"));
}

#[test]
fn test_parse_rust_struct_name() {
    let path = "test.rs";
    let nodes = parse(path, SAMPLE_RUST).unwrap();

    let structs: Vec<_> = nodes.iter().filter(|n| n.kind == NodeKind::Struct).collect();
    assert_eq!(structs.len(), 1);
    assert_eq!(structs[0].name, "Config");
    assert_eq!(structs[0].language, Language::Rust);
}

#[test]
fn test_parse_rust_line_numbers() {
    let path = "test.rs";
    let nodes = parse(path, SAMPLE_RUST).unwrap();

    let main_fn = nodes.iter().find(|n| n.name == "main" && n.kind == NodeKind::Function);
    assert!(main_fn.is_some(), "should find main function");
    let main_fn = main_fn.unwrap();
    assert!(main_fn.line_start > 0, "line numbers should be 1-indexed");
}

#[test]
fn test_parse_empty_file() {
    let path = "empty.rs";
    let nodes = parse(path, "").unwrap();
    // File node is always created; empty file has just the file node
    assert!(nodes.len() <= 1);
}

#[test]
fn test_parse_rust_trait_method() {
    let path = "test.rs";
    let nodes = parse(path, SAMPLE_RUST).unwrap();

    let traits: Vec<_> = nodes.iter().filter(|n| n.kind == NodeKind::Trait).collect();
    assert_eq!(traits.len(), 1);
    assert_eq!(traits[0].name, "Processor");
}

#[test]
fn impl_methods_are_methods_only() {
    let nodes = parse("test.rs", SAMPLE_RUST).unwrap();
    let functions: Vec<_> = nodes.iter().filter(|n| n.kind == NodeKind::Function).map(|n| n.name.as_str()).collect();
    let methods: Vec<_> = nodes.iter().filter(|n| n.kind == NodeKind::Method).map(|n| n.name.as_str()).collect();
    assert_eq!(functions, vec!["main"]);
    assert_eq!(methods, vec!["new", "get"]);
}

#[test]
fn nested_and_trait_functions_stay_functions() {
    let src = "trait T { fn d(&self) {} }\nimpl S { fn m() { fn inner() {} } }\n";
    let nodes = parse("n.rs", src).unwrap();
    let functions: Vec<_> = nodes.iter().filter(|n| n.kind == NodeKind::Function).map(|n| n.name.as_str()).collect();
    let methods: Vec<_> = nodes.iter().filter(|n| n.kind == NodeKind::Method).map(|n| n.name.as_str()).collect();
    assert_eq!(functions, vec!["d", "inner"]);
    assert_eq!(methods, vec!["m"]);
}

#[test]
fn malformed_source_still_parses() {
    let nodes = parse("bad.rs", "fn ok() {}\nfn broken( {\n").unwrap();
    assert_eq!(nodes[0].kind, NodeKind::File);
    assert!(nodes.iter().any(|n| n.name == "ok" && n.kind == NodeKind::Function));
}
