use deagle::cpp_parser::{parse, parse_with_edges};
use deagle::{EdgeKind, Language, NodeKind};
const SAMPLE_CPP: &str = r#"
#include <iostream>
#include <vector>

#define MAX_SIZE 1024

namespace math {

class Vector {
public:
    double x, y, z;

    Vector(double x, double y, double z) : x(x), y(y), z(z) {}

    double magnitude() const {
        return std::sqrt(x*x + y*y + z*z);
    }

    Vector operator+(const Vector& other) const {
        return Vector(x + other.x, y + other.y, z + other.z);
    }
};

struct Point {
    int x;
    int y;
};

enum class Color {
    Red,
    Green,
    Blue
};

template<typename T>
class Container {
    T value;
public:
    Container(T v) : value(v) {}
    T get() const { return value; }
};

template<typename T>
T add(T a, T b) {
    return a + b;
}

} // namespace math

int main(int argc, char* argv[]) {
    math::Vector v(1, 2, 3);
    std::cout << v.magnitude() << std::endl;
    return 0;
}
"#;

#[test]
fn test_parse_cpp_finds_all() {
    let path = "main.cpp";
    let nodes = parse(path, SAMPLE_CPP).unwrap();
    let kinds: Vec<_> = nodes.iter().map(|n| n.kind).collect();
    assert!(kinds.contains(&NodeKind::Import), "should find #include");
    assert!(kinds.contains(&NodeKind::Constant), "should find #define");
    assert!(kinds.contains(&NodeKind::Class), "should find class");
    assert!(kinds.contains(&NodeKind::Struct), "should find struct");
    assert!(kinds.contains(&NodeKind::Enum), "should find enum");
    assert!(kinds.contains(&NodeKind::Function), "should find function");
    assert!(kinds.contains(&NodeKind::Module), "should find namespace");
}

#[test]
fn test_parse_cpp_class() {
    let path = "main.cpp";
    let nodes = parse(path, SAMPLE_CPP).unwrap();
    let classes: Vec<_> = nodes.iter().filter(|n| n.kind == NodeKind::Class).collect();
    assert!(classes.iter().any(|c| c.name == "Vector"), "should find Vector class");
    assert!(classes.iter().any(|c| c.name == "Container"), "should find Container template class");
}

#[test]
fn test_parse_cpp_namespace() {
    let path = "main.cpp";
    let nodes = parse(path, SAMPLE_CPP).unwrap();
    let ns: Vec<_> = nodes.iter().filter(|n| n.kind == NodeKind::Module).collect();
    assert_eq!(ns.len(), 1);
    assert_eq!(ns[0].name, "math");
}

#[test]
fn test_parse_cpp_functions() {
    let path = "main.cpp";
    let nodes = parse(path, SAMPLE_CPP).unwrap();
    let fns: Vec<_> = nodes.iter().filter(|n| n.kind == NodeKind::Function).collect();
    assert!(fns.iter().any(|f| f.name == "main"), "should find main");
}

#[test]
fn test_parse_cpp_edges() {
    let path = "main.cpp";
    let result = parse_with_edges(path, SAMPLE_CPP).unwrap();
    assert!(!result.edges.is_empty());
}

#[test]
fn test_parse_empty_cpp() {
    let path = "empty.cpp";
    let nodes = parse(path, "").unwrap();
    assert!(nodes.len() <= 1);
}

#[test]
fn test_parse_cpp_enum_class() {
    let path = "main.cpp";
    let nodes = parse(path, SAMPLE_CPP).unwrap();
    let enums: Vec<_> = nodes.iter().filter(|n| n.kind == NodeKind::Enum).collect();
    assert!(enums.iter().any(|e| e.name == "Color"), "should find enum class Color");
}
