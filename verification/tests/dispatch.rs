use deagle::{parse_auto, parse_file, parse_file_with_edges, EdgeKind, Language, NodeKind};

const RUST: &str = "use std::io;\n\nfn main() {}\n\nstruct S;\n";

#[test]
fn parse_file_heads_with_the_file_node() {
    let nodes = parse_file("src/main.rs", RUST, Language::Rust).unwrap();
    assert_eq!(nodes[0].kind, NodeKind::File);
    assert_eq!(nodes[0].name, "main.rs");
    assert_eq!(nodes[0].line_start, 1);
    assert_eq!(nodes[0].line_end, 5);
    assert!(nodes.iter().any(|n| n.name == "main" && n.kind == NodeKind::Function));
}

#[test]
fn edges_link_the_file_to_every_entity() {
    let r = parse_file_with_edges("src/main.rs", RUST, Language::Rust).unwrap();
    assert_eq!(r.edges.len(), r.nodes.len() - 1);
    for (k, e) in r.edges.iter().enumerate() {
        assert_eq!(*e, (0, k + 1, EdgeKind::Contains));
    }
}

#[test]
fn java_c_and_cpp_are_parsed() {
    let java = parse_file("App.java", "class A {}", Language::Java).unwrap();
    assert_eq!(java[0].kind, NodeKind::File);
    assert!(java.iter().any(|n| n.name == "A" && n.kind == NodeKind::Class && n.language == Language::Java));
    let c = parse_file("m.c", "int add(int a, int b) { return a + b; }\n", Language::C).unwrap();
    assert!(c.iter().any(|n| n.name == "add" && n.kind == NodeKind::Function && n.language == Language::C));
    let cpp = parse_file("m.cpp", "namespace math { int sq(int x) { return x * x; } }\n", Language::Cpp).unwrap();
    assert!(cpp.iter().any(|n| n.name == "math" && n.kind == NodeKind::Module));
    let r = parse_file_with_edges("App.java", "class A {}", Language::Java).unwrap();
    assert_eq!(r.edges.len(), r.nodes.len() - 1);
    assert!(parse_auto("x/App.java", "class A {}").unwrap().len() >= 2);
}

#[test]
fn unknown_language_gives_nothing() {
    assert!(parse_file("notes.txt", "hello", Language::Unknown).unwrap().is_empty());
    let r = parse_file_with_edges("notes.txt", "hello", Language::Unknown).unwrap();
    assert!(r.nodes.is_empty() && r.edges.is_empty());
}

#[test]
fn ruby_files_are_not_dispatched() {
    assert!(parse_file("app.rb", "def greet; end", Language::Ruby).unwrap().is_empty());
    let r = parse_file_with_edges("app.rb", "class Dog\n  def bark; end\nend\n", Language::Ruby).unwrap();
    assert!(r.nodes.is_empty() && r.edges.is_empty());
    assert!(parse_auto("lib/app.rb", "def greet; end").unwrap().is_empty());
}

#[test]
fn javascript_is_read_as_typescript() {
    let nodes = parse_file("a.js", "function f() {}\n", Language::JavaScript).unwrap();
    assert!(nodes.len() >= 2);
    assert!(nodes.iter().all(|n| n.language == Language::TypeScript));
}

#[test]
fn parse_auto_picks_language_from_extension() {
    let auto = parse_auto("src/main.RS", RUST).unwrap();
    let direct = parse_file("src/main.RS", RUST, Language::Rust).unwrap();
    assert_eq!(auto.len(), direct.len());
    assert!(parse_auto("notes.txt", "hello").unwrap().is_empty());
    assert!(parse_auto("Makefile", "all:").unwrap().is_empty());
}

#[test]
fn entity_content_is_cut_to_500_characters() {
    let body: String = std::iter::repeat("    let x = 1;\n").take(100).collect();
    let src = format!("fn long() {{\n{}}}\n", body);
    let nodes = parse_file("long.rs", &src, Language::Rust).unwrap();
    let f = nodes.iter().find(|n| n.name == "long").unwrap();
    let content = f.content.as_ref().unwrap();
    assert_eq!(content.chars().count(), 500);
    assert!(src.starts_with(content.as_str()));
}

#[test]
fn entities_belong_to_their_file() {
    let src = "use std::io;\n\nfn main() {}\n\nstruct S;\n\nimpl S {\n    fn go(&self) {}\n}\n";
    let nodes = parse_file("src/lib.rs", src, Language::Rust).unwrap();
    assert!(nodes.len() > 1);
    for n in &nodes[1..] {
        assert_eq!(n.id, 0);
        assert_ne!(n.kind, NodeKind::File);
        assert_eq!(n.language, Language::Rust);
        assert_eq!(n.file_path, "src/lib.rs");
        assert!(1 <= n.line_start && n.line_start <= n.line_end);
    }
    let py = parse_file("a.py", "class A:\n    def f(self):\n        pass\n", Language::Python).unwrap();
    assert!(py[1..].iter().all(|n| n.language == Language::Python && n.file_path == "a.py" && n.kind != NodeKind::File));
}
