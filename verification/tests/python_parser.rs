use deagle::python_parser::{parse, parse_with_edges};
use deagle::{EdgeKind, Language, NodeKind};
const SAMPLE_PYTHON: &str = r#"
import os
from pathlib import Path

MAX_SIZE = 1024
DEBUG = True

class Config:
    """Configuration holder."""

    def __init__(self, name: str):
        self.name = name
        self.values = {}

    def get(self, key: str) -> str:
        return self.values.get(key, "")

    @staticmethod
    def default() -> "Config":
        return Config("default")

class Status:
    ACTIVE = "active"
    INACTIVE = "inactive"

def process(data: list) -> dict:
    result = {}
    for item in data:
        result[item] = True
    return result

def main():
    config = Config("test")
    print(config.get("key"))
"#;

#[test]
fn test_parse_python_finds_all_definitions() {
    let path = "test.py";
    let nodes = parse(path, SAMPLE_PYTHON).unwrap();

    let kinds: Vec<_> = nodes.iter().map(|n| n.kind).collect();
    assert!(kinds.contains(&NodeKind::Import), "should find import");
    assert!(kinds.contains(&NodeKind::Constant), "should find constant");
    assert!(kinds.contains(&NodeKind::Class), "should find class");
    assert!(kinds.contains(&NodeKind::Function), "should find function");
}

#[test]
fn test_parse_python_finds_methods() {
    let path = "test.py";
    let nodes = parse(path, SAMPLE_PYTHON).unwrap();

    let methods: Vec<_> = nodes.iter().filter(|n| n.kind == NodeKind::Method).collect();
    assert!(methods.len() >= 3, "should find methods (__init__, get, default), got {}", methods.len());
    assert!(methods.iter().any(|m| m.name == "__init__"));
    assert!(methods.iter().any(|m| m.name == "get"));
    assert!(methods.iter().any(|m| m.name == "default"));
}

#[test]
fn test_parse_python_class_name() {
    let path = "test.py";
    let nodes = parse(path, SAMPLE_PYTHON).unwrap();

    let classes: Vec<_> = nodes.iter().filter(|n| n.kind == NodeKind::Class).collect();
    assert_eq!(classes.len(), 2);
    assert!(classes.iter().any(|c| c.name == "Config"));
    assert!(classes.iter().any(|c| c.name == "Status"));
    assert_eq!(classes[0].language, Language::Python);
}

#[test]
fn test_parse_python_constants() {
    let path = "test.py";
    let nodes = parse(path, SAMPLE_PYTHON).unwrap();

    let constants: Vec<_> = nodes.iter().filter(|n| n.kind == NodeKind::Constant).collect();
    assert!(constants.iter().any(|c| c.name == "MAX_SIZE"), "should find MAX_SIZE");
    assert!(constants.iter().any(|c| c.name == "DEBUG"), "should find DEBUG");
}

#[test]
fn test_parse_python_line_numbers() {
    let path = "test.py";
    let nodes = parse(path, SAMPLE_PYTHON).unwrap();

    let main_fn = nodes.iter().find(|n| n.name == "main" && n.kind == NodeKind::Function);
    assert!(main_fn.is_some(), "should find main function");
    assert!(main_fn.unwrap().line_start > 0, "line numbers should be 1-indexed");
}

#[test]
fn test_parse_python_imports() {
    let path = "test.py";
    let nodes = parse(path, SAMPLE_PYTHON).unwrap();

    let imports: Vec<_> = nodes.iter().filter(|n| n.kind == NodeKind::Import).collect();
    assert_eq!(imports.len(), 2, "should find 2 import statements");
    assert!(imports.iter().any(|i| i.name.contains("os")));
    assert!(imports.iter().any(|i| i.name.contains("pathlib")));
}

#[test]
fn test_parse_python_edges() {
    let path = "test.py";
    let result = parse_with_edges(path, SAMPLE_PYTHON).unwrap();

    assert!(!result.edges.is_empty(), "should have CONTAINS edges");
    // All edges should be from file node (idx 0)
    for &(from_idx, _, ref kind) in &result.edges {
        assert_eq!(from_idx, 0);
        assert_eq!(*kind, EdgeKind::Contains);
    }
}

#[test]
fn test_parse_empty_python_file() {
    let path = "empty.py";
    let nodes = parse(path, "").unwrap();
    assert!(nodes.len() <= 1);
}

#[test]
fn test_parse_python_decorated_function() {
    let source = r#"
import functools

def decorator(f):
    return f

@decorator
def decorated():
    pass

class MyClass:
    @staticmethod
    def static_method():
        pass

    @classmethod
    def class_method(cls):
        pass
"#;
    let path = "deco.py";
    let nodes = parse(path, source).unwrap();

    let fns: Vec<_> = nodes.iter().filter(|n| n.kind == NodeKind::Function).collect();
    assert!(fns.iter().any(|f| f.name == "decorator"));
    assert!(fns.iter().any(|f| f.name == "decorated"));

    let methods: Vec<_> = nodes.iter().filter(|n| n.kind == NodeKind::Method).collect();
    assert!(methods.iter().any(|m| m.name == "static_method"));
    assert!(methods.iter().any(|m| m.name == "class_method"));
}

#[test]
fn test_parse_python_nested_class() {
    let source = r#"
class Outer:
    class Inner:
        def inner_method(self):
            pass

    def outer_method(self):
        pass
"#;
    let path = "nested.py";
    let nodes = parse(path, source).unwrap();

    let classes: Vec<_> = nodes.iter().filter(|n| n.kind == NodeKind::Class).collect();
    assert!(classes.iter().any(|c| c.name == "Outer"));
}

#[test]
fn test_parse_python_async_function() {
    let source = r#"
import asyncio

async def fetch_data(url: str) -> dict:
    return {}

class Client:
    async def connect(self):
        pass
"#;
    let path = "async.py";
    let nodes = parse(path, source).unwrap();

    let fns: Vec<_> = nodes.iter().filter(|n| n.kind == NodeKind::Function).collect();
    assert!(fns.iter().any(|f| f.name == "fetch_data"), "should find async function");

    let methods: Vec<_> = nodes.iter().filter(|n| n.kind == NodeKind::Method).collect();
    assert!(methods.iter().any(|m| m.name == "connect"), "should find async method");
}

#[test]
fn test_parse_python_lowercase_not_constant() {
    let source = r#"
MAX_SIZE = 100
lowercase_var = "not a constant"
_private = True
"#;
    let path = "vars.py";
    let nodes = parse(path, source).unwrap();

    let constants: Vec<_> = nodes.iter().filter(|n| n.kind == NodeKind::Constant).collect();
    assert!(constants.iter().any(|c| c.name == "MAX_SIZE"));
    // lowercase should NOT be captured as constant
    assert!(!constants.iter().any(|c| c.name == "lowercase_var"));
    assert!(!constants.iter().any(|c| c.name == "_private"));
}

#[test]
fn test_parse_python_multiple_imports() {
    let source = r#"
import os
import sys
from typing import Dict, List, Optional
from pathlib import Path
from collections import defaultdict
"#;
    let path = "imports.py";
    let nodes = parse(path, source).unwrap();

    let imports: Vec<_> = nodes.iter().filter(|n| n.kind == NodeKind::Import).collect();
    assert_eq!(imports.len(), 5, "should find all 5 import statements");
}
