use deagle::c_parser::{parse, parse_with_edges};
use deagle::{EdgeKind, Language, NodeKind};
const SAMPLE_C: &str = r#"
#include <stdio.h>
#include <stdlib.h>

#define MAX_SIZE 1024
#define VERSION "1.0"

typedef unsigned int uint;

struct Point {
    int x;
    int y;
};

enum Color {
    RED,
    GREEN,
    BLUE
};

int add(int a, int b) {
    return a + b;
}

void print_point(struct Point p) {
    printf("(%d, %d)\n", p.x, p.y);
}

int main(int argc, char *argv[]) {
    struct Point p = {1, 2};
    print_point(p);
    printf("%d\n", add(p.x, p.y));
    return 0;
}
"#;

#[test]
fn test_parse_c_finds_all() {
    let path = "main.c";
    let nodes = parse(path, SAMPLE_C).unwrap();
    let kinds: Vec<_> = nodes.iter().map(|n| n.kind).collect();
    assert!(kinds.contains(&NodeKind::Import), "should find #include");
    assert!(kinds.contains(&NodeKind::Constant), "should find #define");
    assert!(kinds.contains(&NodeKind::Struct), "should find struct");
    assert!(kinds.contains(&NodeKind::Enum), "should find enum");
    assert!(kinds.contains(&NodeKind::Function), "should find function");
}

#[test]
fn test_parse_c_functions() {
    let path = "main.c";
    let nodes = parse(path, SAMPLE_C).unwrap();
    let fns: Vec<_> = nodes.iter().filter(|n| n.kind == NodeKind::Function).collect();
    assert!(fns.iter().any(|f| f.name == "add"));
    assert!(fns.iter().any(|f| f.name == "print_point"));
    assert!(fns.iter().any(|f| f.name == "main"));
}

#[test]
fn test_parse_c_struct() {
    let path = "main.c";
    let nodes = parse(path, SAMPLE_C).unwrap();
    let structs: Vec<_> = nodes.iter().filter(|n| n.kind == NodeKind::Struct).collect();
    assert_eq!(structs.len(), 1);
    assert_eq!(structs[0].name, "Point");
}

#[test]
fn test_parse_c_defines() {
    let path = "main.c";
    let nodes = parse(path, SAMPLE_C).unwrap();
    let consts: Vec<_> = nodes.iter().filter(|n| n.kind == NodeKind::Constant).collect();
    assert!(consts.iter().any(|c| c.name == "MAX_SIZE"));
    assert!(consts.iter().any(|c| c.name == "VERSION"));
}

#[test]
fn test_parse_c_edges() {
    let path = "main.c";
    let result = parse_with_edges(path, SAMPLE_C).unwrap();
    assert!(!result.edges.is_empty());
}

#[test]
fn test_parse_empty_c() {
    let path = "empty.c";
    let nodes = parse(path, "").unwrap();
    assert!(nodes.len() <= 1);
}
