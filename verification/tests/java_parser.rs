use deagle::java_parser::{parse, parse_with_edges};
use deagle::{EdgeKind, Language, NodeKind};
const SAMPLE_JAVA: &str = r#"
package com.example.app;

import java.util.List;
import java.util.Map;

public class Application {
    public static final int MAX_SIZE = 1024;

    private String name;

    public Application(String name) {
        this.name = name;
    }

    public String getName() {
        return name;
    }

    public void process(List<String> items) {
        for (String item : items) {
            System.out.println(item);
        }
    }
}

interface Service {
    void execute();
    String status();
}

enum Priority {
    LOW, MEDIUM, HIGH, CRITICAL
}
"#;

#[test]
fn test_parse_java_finds_all() {
    let path = "App.java";
    let nodes = parse(path, SAMPLE_JAVA).unwrap();
    let kinds: Vec<_> = nodes.iter().map(|n| n.kind).collect();
    assert!(kinds.contains(&NodeKind::Module), "package");
    assert!(kinds.contains(&NodeKind::Import), "import");
    assert!(kinds.contains(&NodeKind::Class), "class");
    assert!(kinds.contains(&NodeKind::Interface), "interface");
    assert!(kinds.contains(&NodeKind::Enum), "enum");
    assert!(kinds.contains(&NodeKind::Method), "method");
}

#[test]
fn test_parse_java_class() {
    let path = "App.java";
    let nodes = parse(path, SAMPLE_JAVA).unwrap();
    let classes: Vec<_> = nodes.iter().filter(|n| n.kind == NodeKind::Class).collect();
    assert_eq!(classes.len(), 1);
    assert_eq!(classes[0].name, "Application");
}

#[test]
fn test_parse_java_methods() {
    let path = "App.java";
    let nodes = parse(path, SAMPLE_JAVA).unwrap();
    let methods: Vec<_> = nodes.iter().filter(|n| n.kind == NodeKind::Method).collect();
    assert!(methods.iter().any(|m| m.name == "getName"));
    assert!(methods.iter().any(|m| m.name == "process"));
}

#[test]
fn test_parse_java_interface() {
    let path = "App.java";
    let nodes = parse(path, SAMPLE_JAVA).unwrap();
    let ifaces: Vec<_> = nodes.iter().filter(|n| n.kind == NodeKind::Interface).collect();
    assert_eq!(ifaces.len(), 1);
    assert_eq!(ifaces[0].name, "Service");
}

#[test]
fn test_parse_java_enum() {
    let path = "App.java";
    let nodes = parse(path, SAMPLE_JAVA).unwrap();
    let enums: Vec<_> = nodes.iter().filter(|n| n.kind == NodeKind::Enum).collect();
    assert_eq!(enums.len(), 1);
    assert_eq!(enums[0].name, "Priority");
}

#[test]
fn test_parse_java_edges() {
    let path = "App.java";
    let result = parse_with_edges(path, SAMPLE_JAVA).unwrap();
    assert!(!result.edges.is_empty());
}

#[test]
fn test_parse_empty_java() {
    let path = "Empty.java";
    let nodes = parse(path, "").unwrap();
    assert!(nodes.len() <= 1);
}
