use deagle::ruby_parser::{parse, parse_with_edges};
use deagle::{EdgeKind, Language, NodeKind};
const SAMPLE_RUBY: &str = r#"
require 'json'
require_relative 'helpers'

MAX_SIZE = 1024
VERSION = "1.0.0"

module Animals
  class Dog
    attr_accessor :name, :breed

    def initialize(name, breed)
      @name = name
      @breed = breed
    end

    def bark
      "Woof! I'm #{@name}"
    end

    def self.species
      "Canis familiaris"
    end
  end

  class Cat
    def initialize(name)
      @name = name
    end

    def meow
      "Meow!"
    end
  end
end

def greet(name)
  puts "Hello, #{name}!"
end
"#;

#[test]
fn test_parse_ruby_finds_all() {
    let path = "app.rb";
    let nodes = parse(path, SAMPLE_RUBY).unwrap();
    let kinds: Vec<_> = nodes.iter().map(|n| n.kind).collect();
    assert!(kinds.contains(&NodeKind::Import), "should find require");
    assert!(kinds.contains(&NodeKind::Class), "should find class");
    assert!(kinds.contains(&NodeKind::Module), "should find module");
    assert!(kinds.contains(&NodeKind::Method), "should find method");
}

#[test]
fn test_parse_ruby_classes() {
    let path = "app.rb";
    let nodes = parse(path, SAMPLE_RUBY).unwrap();
    let classes: Vec<_> = nodes.iter().filter(|n| n.kind == NodeKind::Class).collect();
    assert!(classes.iter().any(|c| c.name == "Dog"), "should find Dog class");
    assert!(classes.iter().any(|c| c.name == "Cat"), "should find Cat class");
}

#[test]
fn test_parse_ruby_module() {
    let path = "app.rb";
    let nodes = parse(path, SAMPLE_RUBY).unwrap();
    let mods: Vec<_> = nodes.iter().filter(|n| n.kind == NodeKind::Module).collect();
    assert_eq!(mods.len(), 1);
    assert_eq!(mods[0].name, "Animals");
}

#[test]
fn test_parse_ruby_methods() {
    let path = "app.rb";
    let nodes = parse(path, SAMPLE_RUBY).unwrap();
    let methods: Vec<_> = nodes.iter().filter(|n| n.kind == NodeKind::Method).collect();
    assert!(methods.iter().any(|m| m.name == "initialize"), "should find initialize");
    assert!(methods.iter().any(|m| m.name == "bark"), "should find bark");
    assert!(methods.iter().any(|m| m.name == "greet"), "should find greet");
    assert!(methods.iter().any(|m| m.name == "species"), "should find singleton method species");
}

#[test]
fn test_parse_ruby_edges() {
    let path = "app.rb";
    let result = parse_with_edges(path, SAMPLE_RUBY).unwrap();
    assert!(!result.edges.is_empty());
}

#[test]
fn test_parse_empty_ruby() {
    let path = "empty.rb";
    let nodes = parse(path, "").unwrap();
    assert!(nodes.len() <= 1);
}

#[test]
fn test_parse_ruby_requires() {
    let path = "app.rb";
    let nodes = parse(path, SAMPLE_RUBY).unwrap();
    let imports: Vec<_> = nodes.iter().filter(|n| n.kind == NodeKind::Import).collect();
    assert!(imports.len() >= 2, "should find require and require_relative, got {}", imports.len());
}
