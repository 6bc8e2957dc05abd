use deagle::{EdgeKind, Language, NodeKind};

#[test]
fn test_language_from_extension() {
    assert_eq!(Language::from_extension("rs"), Language::Rust);
    assert_eq!(Language::from_extension("py"), Language::Python);
    assert_eq!(Language::from_extension("go"), Language::Go);
    assert_eq!(Language::from_extension("ts"), Language::TypeScript);
    assert_eq!(Language::from_extension("tsx"), Language::TypeScript);
    assert_eq!(Language::from_extension("js"), Language::JavaScript);
    assert_eq!(Language::from_extension("java"), Language::Java);
    assert_eq!(Language::from_extension("cpp"), Language::Cpp);
    assert_eq!(Language::from_extension("c"), Language::C);
    assert_eq!(Language::from_extension("xyz"), Language::Unknown);
}

#[test]
fn test_language_display() {
    assert_eq!(Language::Rust.to_string(), "rust");
    assert_eq!(Language::Python.to_string(), "python");
}

#[test]
fn test_node_kind_display() {
    assert_eq!(NodeKind::Function.to_string(), "function");
    assert_eq!(NodeKind::Struct.to_string(), "struct");
    assert_eq!(NodeKind::TypeAlias.to_string(), "type_alias");
}

#[test]
fn test_edge_kind_display() {
    assert_eq!(EdgeKind::Calls.to_string(), "calls");
    assert_eq!(EdgeKind::Imports.to_string(), "imports");
    assert_eq!(EdgeKind::Contains.to_string(), "contains");
}

#[test]
fn test_language_extensions() {
    assert!(Language::Rust.extensions().contains(&"rs"));
    assert!(Language::TypeScript.extensions().contains(&"tsx"));
    assert!(Language::Unknown.extensions().is_empty());
}

#[test]
fn from_extension_ignores_case() {
    assert_eq!(Language::from_extension("RS"), Language::Rust);
    assert_eq!(Language::from_extension("Py"), Language::Python);
    assert_eq!(Language::from_extension("HPP"), Language::Cpp);
}

#[test]
fn every_listed_extension_maps_back_to_its_language() {
    let all = [
        Language::Rust, Language::Python, Language::Go, Language::TypeScript,
        Language::JavaScript, Language::Java, Language::C, Language::Cpp,
        Language::Ruby, Language::Unknown,
    ];
    for l in all {
        for e in l.extensions() {
            assert_eq!(Language::from_extension(e), l);
        }
    }
}
