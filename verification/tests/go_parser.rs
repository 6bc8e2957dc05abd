use deagle::go_parser::{parse, parse_with_edges};
use deagle::{EdgeKind, Language, NodeKind};
const SAMPLE_GO: &str = r#"
package main

import (
    "fmt"
    "net/http"
)

const MaxSize = 1024

type Config struct {
    Name   string
    Values map[string]string
}

type Handler interface {
    ServeHTTP(w http.ResponseWriter, r *http.Request)
}

func NewConfig(name string) *Config {
    return &Config{Name: name, Values: make(map[string]string)}
}

func (c *Config) Get(key string) string {
    return c.Values[key]
}

func main() {
    config := NewConfig("test")
    fmt.Println(config.Get("key"))
}
"#;

#[test]
fn test_parse_go_finds_all_definitions() {
    let path = "main.go";
    let nodes = parse(path, SAMPLE_GO).unwrap();
    let kinds: Vec<_> = nodes.iter().map(|n| n.kind).collect();
    assert!(kinds.contains(&NodeKind::Module), "should find package");
    assert!(kinds.contains(&NodeKind::Import), "should find import");
    assert!(kinds.contains(&NodeKind::Constant), "should find const");
    assert!(kinds.contains(&NodeKind::Struct), "should find struct");
    assert!(kinds.contains(&NodeKind::Interface), "should find interface");
    assert!(kinds.contains(&NodeKind::Function), "should find function");
    assert!(kinds.contains(&NodeKind::Method), "should find method");
}

#[test]
fn test_parse_go_struct_name() {
    let path = "main.go";
    let nodes = parse(path, SAMPLE_GO).unwrap();
    let structs: Vec<_> = nodes.iter().filter(|n| n.kind == NodeKind::Struct).collect();
    assert_eq!(structs.len(), 1);
    assert_eq!(structs[0].name, "Config");
    assert_eq!(structs[0].language, Language::Go);
}

#[test]
fn test_parse_go_methods() {
    let path = "main.go";
    let nodes = parse(path, SAMPLE_GO).unwrap();
    let methods: Vec<_> = nodes.iter().filter(|n| n.kind == NodeKind::Method).collect();
    assert!(methods.iter().any(|m| m.name == "Get"), "should find Get method");
}

#[test]
fn test_parse_go_functions() {
    let path = "main.go";
    let nodes = parse(path, SAMPLE_GO).unwrap();
    let fns: Vec<_> = nodes.iter().filter(|n| n.kind == NodeKind::Function).collect();
    assert!(fns.iter().any(|f| f.name == "NewConfig"));
    assert!(fns.iter().any(|f| f.name == "main"));
}

#[test]
fn test_parse_go_interface() {
    let path = "main.go";
    let nodes = parse(path, SAMPLE_GO).unwrap();
    let ifaces: Vec<_> = nodes.iter().filter(|n| n.kind == NodeKind::Interface).collect();
    assert_eq!(ifaces.len(), 1);
    assert_eq!(ifaces[0].name, "Handler");
}

#[test]
fn test_parse_go_edges() {
    let path = "main.go";
    let result = parse_with_edges(path, SAMPLE_GO).unwrap();
    assert!(!result.edges.is_empty());
    for &(from, _, ref kind) in &result.edges {
        assert_eq!(from, 0);
        assert_eq!(*kind, EdgeKind::Contains);
    }
}

#[test]
fn test_parse_empty_go() {
    let path = "empty.go";
    let nodes = parse(path, "").unwrap();
    assert!(nodes.len() <= 1);
}
