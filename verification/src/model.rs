//! The code graph model: entities (nodes), their kinds and languages, and
//! the kinds of relationship (edges) between them.
use vstd::prelude::*;
use crate::text::{owned, str_eq};

verus! {

/// Kind of code entity.
#[derive(Debug, Clone, Copy, PartialEq, Eq, Structural)]
pub enum NodeKind {
    File,
    Module,
    Function,
    Method,
    Class,
    Struct,
    Enum,
    Trait,
    Interface,
    Constant,
    Variable,
    TypeAlias,
    Import,
}

/// Supported programming languages.
#[derive(Debug, Clone, Copy, PartialEq, Eq, Structural)]
pub enum Language {
    Rust,
    Python,
    Go,
    TypeScript,
    JavaScript,
    Java,
    Cpp,
    C,
    Ruby,
    Unknown,
}

/// Kind of relationship between code entities.
#[derive(Debug, Clone, Copy, PartialEq, Eq, Structural)]
pub enum EdgeKind {
    /// Function/method call
    Calls,
    /// Import/use statement
    Imports,
    /// Parent contains child (file→function, class→method)
    Contains,
    /// Class/struct inheritance
    Inherits,
    /// Interface/trait implementation
    Implements,
    /// Type reference (parameter type, return type, field type)
    References,
    /// Module/package dependency
    DependsOn,
}

/// A node in the code graph: one code entity.
#[derive(Debug, Clone)]
pub struct Node {
    /// Unique identifier (assigned by the store)
    pub id: i64,
    /// Entity name (function name, class name, etc.)
    pub name: String,
    /// Entity kind
    pub kind: NodeKind,
    /// Programming language
    pub language: Language,
    /// Source file path (relative to repo root)
    pub file_path: String,
    /// Start line number (1-indexed)
    pub line_start: u32,
    /// End line number (1-indexed)
    pub line_end: u32,
    /// Optional source code excerpt
    pub content: Option<String>,
}

/// The mathematical value of a [`Node`]: its strings as character sequences.
pub struct NodeValue {
    pub id: i64,
    pub name: Seq<char>,
    pub kind: NodeKind,
    pub language: Language,
    pub file_path: Seq<char>,
    pub line_start: u32,
    pub line_end: u32,
    pub content: Option<Seq<char>>,
}

pub open spec fn opt_text(s: Option<String>) -> Option<Seq<char>> {
    match s {
        Some(t) => Some(t@),
        None => None,
    }
}

impl View for Node {
    type V = NodeValue;

    open spec fn view(&self) -> NodeValue {
        NodeValue {
            id: self.id,
            name: self.name@,
            kind: self.kind,
            language: self.language,
            file_path: self.file_path@,
            line_start: self.line_start,
            line_end: self.line_end,
            content: opt_text(self.content),
        }
    }
}

impl Node {
    /// A copy of the node, field by field.
    pub fn duplicate(&self) -> (r: Node)
        ensures
            r@ == self@,
    {
        Node {
            id: self.id,
            name: self.name.clone(),
            kind: self.kind,
            language: self.language,
            file_path: self.file_path.clone(),
            line_start: self.line_start,
            line_end: self.line_end,
            content: match &self.content {
                Some(c) => Some(c.clone()),
                None => None,
            },
        }
    }
}

/// The values of a sequence of nodes.
pub open spec fn node_values(s: Seq<Node>) -> Seq<NodeValue> {
    s.map_values(|n: Node| n@)
}

pub proof fn lemma_node_values_push(s: Seq<Node>, n: Node)
    ensures
        node_values(s.push(n)) == node_values(s).push(n@),
{
    assert(node_values(s.push(n)) =~= node_values(s).push(n@));
}

pub proof fn lemma_node_values_add(s: Seq<Node>, t: Seq<Node>)
    ensures
        node_values(s + t) == node_values(s) + node_values(t),
{
    assert(node_values(s + t) =~= node_values(s) + node_values(t));
}

/// Result of parsing a file: nodes, and relationships as
/// `(from_index, to_index, kind)` triples indexing into `nodes`.
pub struct ParseResult {
    pub nodes: Vec<Node>,
    pub edges: Vec<(usize, usize, EdgeKind)>,
}

/// Errors from deagle operations.
#[derive(Debug)]
pub enum DeagleError {
    /// The graph store reported an error (its message).
    Database(String),
    /// Reading or writing a file failed (the message).
    Io(String),
    /// A source file could not be parsed.
    Parse { file: String, message: String },
    /// Any other failure, described by its message.
    Other(String),
}

/// The name of a node kind, as shown to users and stored.
pub open spec fn node_kind_name(k: NodeKind) -> Seq<char> {
    match k {
        NodeKind::File => "file"@,
        NodeKind::Module => "module"@,
        NodeKind::Function => "function"@,
        NodeKind::Method => "method"@,
        NodeKind::Class => "class"@,
        NodeKind::Struct => "struct"@,
        NodeKind::Enum => "enum"@,
        NodeKind::Trait => "trait"@,
        NodeKind::Interface => "interface"@,
        NodeKind::Constant => "constant"@,
        NodeKind::Variable => "variable"@,
        NodeKind::TypeAlias => "type_alias"@,
        NodeKind::Import => "import"@,
    }
}

/// The name of a language, as shown to users and stored.
pub open spec fn language_name(l: Language) -> Seq<char> {
    match l {
        Language::Rust => "rust"@,
        Language::Python => "python"@,
        Language::Go => "go"@,
        Language::TypeScript => "typescript"@,
        Language::JavaScript => "javascript"@,
        Language::Java => "java"@,
        Language::Cpp => "cpp"@,
        Language::C => "c"@,
        Language::Ruby => "ruby"@,
        Language::Unknown => "unknown"@,
    }
}

/// The names kinds and languages are shown and stored under: `file`,
/// `module`, `function`, `method`, `class`, `struct`, `enum`, `trait`,
/// `interface`, `constant`, `variable`, `type_alias`, `import`; `rust`,
/// `python`, `go`, `typescript`, `javascript`, `java`, `cpp`, `c`, `ruby`,
/// `unknown`. No two kinds, and no two languages, share a name, so a stored
/// name reads back as the one it was stored for.
pub proof fn lemma_stored_names()
    ensures
        node_kind_name(NodeKind::File) == "file"@,
        node_kind_name(NodeKind::Module) == "module"@,
        node_kind_name(NodeKind::Function) == "function"@,
        node_kind_name(NodeKind::Method) == "method"@,
        node_kind_name(NodeKind::Class) == "class"@,
        node_kind_name(NodeKind::Struct) == "struct"@,
        node_kind_name(NodeKind::Enum) == "enum"@,
        node_kind_name(NodeKind::Trait) == "trait"@,
        node_kind_name(NodeKind::Interface) == "interface"@,
        node_kind_name(NodeKind::Constant) == "constant"@,
        node_kind_name(NodeKind::Variable) == "variable"@,
        node_kind_name(NodeKind::TypeAlias) == "type_alias"@,
        node_kind_name(NodeKind::Import) == "import"@,
        language_name(Language::Rust) == "rust"@,
        language_name(Language::Python) == "python"@,
        language_name(Language::Go) == "go"@,
        language_name(Language::TypeScript) == "typescript"@,
        language_name(Language::JavaScript) == "javascript"@,
        language_name(Language::Java) == "java"@,
        language_name(Language::Cpp) == "cpp"@,
        language_name(Language::C) == "c"@,
        language_name(Language::Ruby) == "ruby"@,
        language_name(Language::Unknown) == "unknown"@,
        forall|a: NodeKind, b: NodeKind| #[trigger] node_kind_name(a) == #[trigger] node_kind_name(b) ==> a == b,
        forall|a: Language, b: Language| #[trigger] language_name(a) == #[trigger] language_name(b) ==> a == b,
{
    reveal_strlit("file");
    reveal_strlit("module");
    reveal_strlit("function");
    reveal_strlit("method");
    reveal_strlit("class");
    reveal_strlit("struct");
    reveal_strlit("enum");
    reveal_strlit("trait");
    reveal_strlit("interface");
    reveal_strlit("constant");
    reveal_strlit("variable");
    reveal_strlit("type_alias");
    reveal_strlit("import");
    reveal_strlit("rust");
    reveal_strlit("python");
    reveal_strlit("go");
    reveal_strlit("typescript");
    reveal_strlit("javascript");
    reveal_strlit("java");
    reveal_strlit("cpp");
    reveal_strlit("c");
    reveal_strlit("ruby");
    reveal_strlit("unknown");
    assert("file"@ != "module"@) by { assert("file"@.len() != "module"@.len()); }
    assert("file"@ != "function"@) by { assert("file"@.len() != "function"@.len()); }
    assert("file"@ != "method"@) by { assert("file"@.len() != "method"@.len()); }
    assert("file"@ != "class"@) by { assert("file"@.len() != "class"@.len()); }
    assert("file"@ != "struct"@) by { assert("file"@.len() != "struct"@.len()); }
    assert("file"@ != "enum"@) by { assert("file"@[0] != "enum"@[0]); }
    assert("file"@ != "trait"@) by { assert("file"@.len() != "trait"@.len()); }
    assert("file"@ != "interface"@) by { assert("file"@.len() != "interface"@.len()); }
    assert("file"@ != "constant"@) by { assert("file"@.len() != "constant"@.len()); }
    assert("file"@ != "variable"@) by { assert("file"@.len() != "variable"@.len()); }
    assert("file"@ != "type_alias"@) by { assert("file"@.len() != "type_alias"@.len()); }
    assert("file"@ != "import"@) by { assert("file"@.len() != "import"@.len()); }
    assert("file"@ != "rust"@) by { assert("file"@[0] != "rust"@[0]); }
    assert("file"@ != "python"@) by { assert("file"@.len() != "python"@.len()); }
    assert("file"@ != "go"@) by { assert("file"@.len() != "go"@.len()); }
    assert("file"@ != "typescript"@) by { assert("file"@.len() != "typescript"@.len()); }
    assert("file"@ != "javascript"@) by { assert("file"@.len() != "javascript"@.len()); }
    assert("file"@ != "java"@) by { assert("file"@[0] != "java"@[0]); }
    assert("file"@ != "cpp"@) by { assert("file"@.len() != "cpp"@.len()); }
    assert("file"@ != "c"@) by { assert("file"@.len() != "c"@.len()); }
    assert("file"@ != "ruby"@) by { assert("file"@[0] != "ruby"@[0]); }
    assert("file"@ != "unknown"@) by { assert("file"@.len() != "unknown"@.len()); }
    assert("module"@ != "function"@) by { assert("module"@.len() != "function"@.len()); }
    assert("module"@ != "method"@) by { assert("module"@[1] != "method"@[1]); }
    assert("module"@ != "class"@) by { assert("module"@.len() != "class"@.len()); }
    assert("module"@ != "struct"@) by { assert("module"@[0] != "struct"@[0]); }
    assert("module"@ != "enum"@) by { assert("module"@.len() != "enum"@.len()); }
    assert("module"@ != "trait"@) by { assert("module"@.len() != "trait"@.len()); }
    assert("module"@ != "interface"@) by { assert("module"@.len() != "interface"@.len()); }
    assert("module"@ != "constant"@) by { assert("module"@.len() != "constant"@.len()); }
    assert("module"@ != "variable"@) by { assert("module"@.len() != "variable"@.len()); }
    assert("module"@ != "type_alias"@) by { assert("module"@.len() != "type_alias"@.len()); }
    assert("module"@ != "import"@) by { assert("module"@[0] != "import"@[0]); }
    assert("module"@ != "rust"@) by { assert("module"@.len() != "rust"@.len()); }
    assert("module"@ != "python"@) by { assert("module"@[0] != "python"@[0]); }
    assert("module"@ != "go"@) by { assert("module"@.len() != "go"@.len()); }
    assert("module"@ != "typescript"@) by { assert("module"@.len() != "typescript"@.len()); }
    assert("module"@ != "javascript"@) by { assert("module"@.len() != "javascript"@.len()); }
    assert("module"@ != "java"@) by { assert("module"@.len() != "java"@.len()); }
    assert("module"@ != "cpp"@) by { assert("module"@.len() != "cpp"@.len()); }
    assert("module"@ != "c"@) by { assert("module"@.len() != "c"@.len()); }
    assert("module"@ != "ruby"@) by { assert("module"@.len() != "ruby"@.len()); }
    assert("module"@ != "unknown"@) by { assert("module"@.len() != "unknown"@.len()); }
    assert("function"@ != "method"@) by { assert("function"@.len() != "method"@.len()); }
    assert("function"@ != "class"@) by { assert("function"@.len() != "class"@.len()); }
    assert("function"@ != "struct"@) by { assert("function"@.len() != "struct"@.len()); }
    assert("function"@ != "enum"@) by { assert("function"@.len() != "enum"@.len()); }
    assert("function"@ != "trait"@) by { assert("function"@.len() != "trait"@.len()); }
    assert("function"@ != "interface"@) by { assert("function"@.len() != "interface"@.len()); }
    assert("function"@ != "constant"@) by { assert("function"@[0] != "constant"@[0]); }
    assert("function"@ != "variable"@) by { assert("function"@[0] != "variable"@[0]); }
    assert("function"@ != "type_alias"@) by { assert("function"@.len() != "type_alias"@.len()); }
    assert("function"@ != "import"@) by { assert("function"@.len() != "import"@.len()); }
    assert("function"@ != "rust"@) by { assert("function"@.len() != "rust"@.len()); }
    assert("function"@ != "python"@) by { assert("function"@.len() != "python"@.len()); }
    assert("function"@ != "go"@) by { assert("function"@.len() != "go"@.len()); }
    assert("function"@ != "typescript"@) by { assert("function"@.len() != "typescript"@.len()); }
    assert("function"@ != "javascript"@) by { assert("function"@.len() != "javascript"@.len()); }
    assert("function"@ != "java"@) by { assert("function"@.len() != "java"@.len()); }
    assert("function"@ != "cpp"@) by { assert("function"@.len() != "cpp"@.len()); }
    assert("function"@ != "c"@) by { assert("function"@.len() != "c"@.len()); }
    assert("function"@ != "ruby"@) by { assert("function"@.len() != "ruby"@.len()); }
    assert("function"@ != "unknown"@) by { assert("function"@.len() != "unknown"@.len()); }
    assert("method"@ != "class"@) by { assert("method"@.len() != "class"@.len()); }
    assert("method"@ != "struct"@) by { assert("method"@[0] != "struct"@[0]); }
    assert("method"@ != "enum"@) by { assert("method"@.len() != "enum"@.len()); }
    assert("method"@ != "trait"@) by { assert("method"@.len() != "trait"@.len()); }
    assert("method"@ != "interface"@) by { assert("method"@.len() != "interface"@.len()); }
    assert("method"@ != "constant"@) by { assert("method"@.len() != "constant"@.len()); }
    assert("method"@ != "variable"@) by { assert("method"@.len() != "variable"@.len()); }
    assert("method"@ != "type_alias"@) by { assert("method"@.len() != "type_alias"@.len()); }
    assert("method"@ != "import"@) by { assert("method"@[0] != "import"@[0]); }
    assert("method"@ != "rust"@) by { assert("method"@.len() != "rust"@.len()); }
    assert("method"@ != "python"@) by { assert("method"@[0] != "python"@[0]); }
    assert("method"@ != "go"@) by { assert("method"@.len() != "go"@.len()); }
    assert("method"@ != "typescript"@) by { assert("method"@.len() != "typescript"@.len()); }
    assert("method"@ != "javascript"@) by { assert("method"@.len() != "javascript"@.len()); }
    assert("method"@ != "java"@) by { assert("method"@.len() != "java"@.len()); }
    assert("method"@ != "cpp"@) by { assert("method"@.len() != "cpp"@.len()); }
    assert("method"@ != "c"@) by { assert("method"@.len() != "c"@.len()); }
    assert("method"@ != "ruby"@) by { assert("method"@.len() != "ruby"@.len()); }
    assert("method"@ != "unknown"@) by { assert("method"@.len() != "unknown"@.len()); }
    assert("class"@ != "struct"@) by { assert("class"@.len() != "struct"@.len()); }
    assert("class"@ != "enum"@) by { assert("class"@.len() != "enum"@.len()); }
    assert("class"@ != "trait"@) by { assert("class"@[0] != "trait"@[0]); }
    assert("class"@ != "interface"@) by { assert("class"@.len() != "interface"@.len()); }
    assert("class"@ != "constant"@) by { assert("class"@.len() != "constant"@.len()); }
    assert("class"@ != "variable"@) by { assert("class"@.len() != "variable"@.len()); }
    assert("class"@ != "type_alias"@) by { assert("class"@.len() != "type_alias"@.len()); }
    assert("class"@ != "import"@) by { assert("class"@.len() != "import"@.len()); }
    assert("class"@ != "rust"@) by { assert("class"@.len() != "rust"@.len()); }
    assert("class"@ != "python"@) by { assert("class"@.len() != "python"@.len()); }
    assert("class"@ != "go"@) by { assert("class"@.len() != "go"@.len()); }
    assert("class"@ != "typescript"@) by { assert("class"@.len() != "typescript"@.len()); }
    assert("class"@ != "javascript"@) by { assert("class"@.len() != "javascript"@.len()); }
    assert("class"@ != "java"@) by { assert("class"@.len() != "java"@.len()); }
    assert("class"@ != "cpp"@) by { assert("class"@.len() != "cpp"@.len()); }
    assert("class"@ != "c"@) by { assert("class"@.len() != "c"@.len()); }
    assert("class"@ != "ruby"@) by { assert("class"@.len() != "ruby"@.len()); }
    assert("class"@ != "unknown"@) by { assert("class"@.len() != "unknown"@.len()); }
    assert("struct"@ != "enum"@) by { assert("struct"@.len() != "enum"@.len()); }
    assert("struct"@ != "trait"@) by { assert("struct"@.len() != "trait"@.len()); }
    assert("struct"@ != "interface"@) by { assert("struct"@.len() != "interface"@.len()); }
    assert("struct"@ != "constant"@) by { assert("struct"@.len() != "constant"@.len()); }
    assert("struct"@ != "variable"@) by { assert("struct"@.len() != "variable"@.len()); }
    assert("struct"@ != "type_alias"@) by { assert("struct"@.len() != "type_alias"@.len()); }
    assert("struct"@ != "import"@) by { assert("struct"@[0] != "import"@[0]); }
    assert("struct"@ != "rust"@) by { assert("struct"@.len() != "rust"@.len()); }
    assert("struct"@ != "python"@) by { assert("struct"@[0] != "python"@[0]); }
    assert("struct"@ != "go"@) by { assert("struct"@.len() != "go"@.len()); }
    assert("struct"@ != "typescript"@) by { assert("struct"@.len() != "typescript"@.len()); }
    assert("struct"@ != "javascript"@) by { assert("struct"@.len() != "javascript"@.len()); }
    assert("struct"@ != "java"@) by { assert("struct"@.len() != "java"@.len()); }
    assert("struct"@ != "cpp"@) by { assert("struct"@.len() != "cpp"@.len()); }
    assert("struct"@ != "c"@) by { assert("struct"@.len() != "c"@.len()); }
    assert("struct"@ != "ruby"@) by { assert("struct"@.len() != "ruby"@.len()); }
    assert("struct"@ != "unknown"@) by { assert("struct"@.len() != "unknown"@.len()); }
    assert("enum"@ != "trait"@) by { assert("enum"@.len() != "trait"@.len()); }
    assert("enum"@ != "interface"@) by { assert("enum"@.len() != "interface"@.len()); }
    assert("enum"@ != "constant"@) by { assert("enum"@.len() != "constant"@.len()); }
    assert("enum"@ != "variable"@) by { assert("enum"@.len() != "variable"@.len()); }
    assert("enum"@ != "type_alias"@) by { assert("enum"@.len() != "type_alias"@.len()); }
    assert("enum"@ != "import"@) by { assert("enum"@.len() != "import"@.len()); }
    assert("enum"@ != "rust"@) by { assert("enum"@[0] != "rust"@[0]); }
    assert("enum"@ != "python"@) by { assert("enum"@.len() != "python"@.len()); }
    assert("enum"@ != "go"@) by { assert("enum"@.len() != "go"@.len()); }
    assert("enum"@ != "typescript"@) by { assert("enum"@.len() != "typescript"@.len()); }
    assert("enum"@ != "javascript"@) by { assert("enum"@.len() != "javascript"@.len()); }
    assert("enum"@ != "java"@) by { assert("enum"@[0] != "java"@[0]); }
    assert("enum"@ != "cpp"@) by { assert("enum"@.len() != "cpp"@.len()); }
    assert("enum"@ != "c"@) by { assert("enum"@.len() != "c"@.len()); }
    assert("enum"@ != "ruby"@) by { assert("enum"@[0] != "ruby"@[0]); }
    assert("enum"@ != "unknown"@) by { assert("enum"@.len() != "unknown"@.len()); }
    assert("trait"@ != "interface"@) by { assert("trait"@.len() != "interface"@.len()); }
    assert("trait"@ != "constant"@) by { assert("trait"@.len() != "constant"@.len()); }
    assert("trait"@ != "variable"@) by { assert("trait"@.len() != "variable"@.len()); }
    assert("trait"@ != "type_alias"@) by { assert("trait"@.len() != "type_alias"@.len()); }
    assert("trait"@ != "import"@) by { assert("trait"@.len() != "import"@.len()); }
    assert("trait"@ != "rust"@) by { assert("trait"@.len() != "rust"@.len()); }
    assert("trait"@ != "python"@) by { assert("trait"@.len() != "python"@.len()); }
    assert("trait"@ != "go"@) by { assert("trait"@.len() != "go"@.len()); }
    assert("trait"@ != "typescript"@) by { assert("trait"@.len() != "typescript"@.len()); }
    assert("trait"@ != "javascript"@) by { assert("trait"@.len() != "javascript"@.len()); }
    assert("trait"@ != "java"@) by { assert("trait"@.len() != "java"@.len()); }
    assert("trait"@ != "cpp"@) by { assert("trait"@.len() != "cpp"@.len()); }
    assert("trait"@ != "c"@) by { assert("trait"@.len() != "c"@.len()); }
    assert("trait"@ != "ruby"@) by { assert("trait"@.len() != "ruby"@.len()); }
    assert("trait"@ != "unknown"@) by { assert("trait"@.len() != "unknown"@.len()); }
    assert("interface"@ != "constant"@) by { assert("interface"@.len() != "constant"@.len()); }
    assert("interface"@ != "variable"@) by { assert("interface"@.len() != "variable"@.len()); }
    assert("interface"@ != "type_alias"@) by { assert("interface"@.len() != "type_alias"@.len()); }
    assert("interface"@ != "import"@) by { assert("interface"@.len() != "import"@.len()); }
    assert("interface"@ != "rust"@) by { assert("interface"@.len() != "rust"@.len()); }
    assert("interface"@ != "python"@) by { assert("interface"@.len() != "python"@.len()); }
    assert("interface"@ != "go"@) by { assert("interface"@.len() != "go"@.len()); }
    assert("interface"@ != "typescript"@) by { assert("interface"@.len() != "typescript"@.len()); }
    assert("interface"@ != "javascript"@) by { assert("interface"@.len() != "javascript"@.len()); }
    assert("interface"@ != "java"@) by { assert("interface"@.len() != "java"@.len()); }
    assert("interface"@ != "cpp"@) by { assert("interface"@.len() != "cpp"@.len()); }
    assert("interface"@ != "c"@) by { assert("interface"@.len() != "c"@.len()); }
    assert("interface"@ != "ruby"@) by { assert("interface"@.len() != "ruby"@.len()); }
    assert("interface"@ != "unknown"@) by { assert("interface"@.len() != "unknown"@.len()); }
    assert("constant"@ != "variable"@) by { assert("constant"@[0] != "variable"@[0]); }
    assert("constant"@ != "type_alias"@) by { assert("constant"@.len() != "type_alias"@.len()); }
    assert("constant"@ != "import"@) by { assert("constant"@.len() != "import"@.len()); }
    assert("constant"@ != "rust"@) by { assert("constant"@.len() != "rust"@.len()); }
    assert("constant"@ != "python"@) by { assert("constant"@.len() != "python"@.len()); }
    assert("constant"@ != "go"@) by { assert("constant"@.len() != "go"@.len()); }
    assert("constant"@ != "typescript"@) by { assert("constant"@.len() != "typescript"@.len()); }
    assert("constant"@ != "javascript"@) by { assert("constant"@.len() != "javascript"@.len()); }
    assert("constant"@ != "java"@) by { assert("constant"@.len() != "java"@.len()); }
    assert("constant"@ != "cpp"@) by { assert("constant"@.len() != "cpp"@.len()); }
    assert("constant"@ != "c"@) by { assert("constant"@.len() != "c"@.len()); }
    assert("constant"@ != "ruby"@) by { assert("constant"@.len() != "ruby"@.len()); }
    assert("constant"@ != "unknown"@) by { assert("constant"@.len() != "unknown"@.len()); }
    assert("variable"@ != "type_alias"@) by { assert("variable"@.len() != "type_alias"@.len()); }
    assert("variable"@ != "import"@) by { assert("variable"@.len() != "import"@.len()); }
    assert("variable"@ != "rust"@) by { assert("variable"@.len() != "rust"@.len()); }
    assert("variable"@ != "python"@) by { assert("variable"@.len() != "python"@.len()); }
    assert("variable"@ != "go"@) by { assert("variable"@.len() != "go"@.len()); }
    assert("variable"@ != "typescript"@) by { assert("variable"@.len() != "typescript"@.len()); }
    assert("variable"@ != "javascript"@) by { assert("variable"@.len() != "javascript"@.len()); }
    assert("variable"@ != "java"@) by { assert("variable"@.len() != "java"@.len()); }
    assert("variable"@ != "cpp"@) by { assert("variable"@.len() != "cpp"@.len()); }
    assert("variable"@ != "c"@) by { assert("variable"@.len() != "c"@.len()); }
    assert("variable"@ != "ruby"@) by { assert("variable"@.len() != "ruby"@.len()); }
    assert("variable"@ != "unknown"@) by { assert("variable"@.len() != "unknown"@.len()); }
    assert("type_alias"@ != "import"@) by { assert("type_alias"@.len() != "import"@.len()); }
    assert("type_alias"@ != "rust"@) by { assert("type_alias"@.len() != "rust"@.len()); }
    assert("type_alias"@ != "python"@) by { assert("type_alias"@.len() != "python"@.len()); }
    assert("type_alias"@ != "go"@) by { assert("type_alias"@.len() != "go"@.len()); }
    assert("type_alias"@ != "typescript"@) by { assert("type_alias"@[4] != "typescript"@[4]); }
    assert("type_alias"@ != "javascript"@) by { assert("type_alias"@[0] != "javascript"@[0]); }
    assert("type_alias"@ != "java"@) by { assert("type_alias"@.len() != "java"@.len()); }
    assert("type_alias"@ != "cpp"@) by { assert("type_alias"@.len() != "cpp"@.len()); }
    assert("type_alias"@ != "c"@) by { assert("type_alias"@.len() != "c"@.len()); }
    assert("type_alias"@ != "ruby"@) by { assert("type_alias"@.len() != "ruby"@.len()); }
    assert("type_alias"@ != "unknown"@) by { assert("type_alias"@.len() != "unknown"@.len()); }
    assert("import"@ != "rust"@) by { assert("import"@.len() != "rust"@.len()); }
    assert("import"@ != "python"@) by { assert("import"@[0] != "python"@[0]); }
    assert("import"@ != "go"@) by { assert("import"@.len() != "go"@.len()); }
    assert("import"@ != "typescript"@) by { assert("import"@.len() != "typescript"@.len()); }
    assert("import"@ != "javascript"@) by { assert("import"@.len() != "javascript"@.len()); }
    assert("import"@ != "java"@) by { assert("import"@.len() != "java"@.len()); }
    assert("import"@ != "cpp"@) by { assert("import"@.len() != "cpp"@.len()); }
    assert("import"@ != "c"@) by { assert("import"@.len() != "c"@.len()); }
    assert("import"@ != "ruby"@) by { assert("import"@.len() != "ruby"@.len()); }
    assert("import"@ != "unknown"@) by { assert("import"@.len() != "unknown"@.len()); }
    assert("rust"@ != "python"@) by { assert("rust"@.len() != "python"@.len()); }
    assert("rust"@ != "go"@) by { assert("rust"@.len() != "go"@.len()); }
    assert("rust"@ != "typescript"@) by { assert("rust"@.len() != "typescript"@.len()); }
    assert("rust"@ != "javascript"@) by { assert("rust"@.len() != "javascript"@.len()); }
    assert("rust"@ != "java"@) by { assert("rust"@[0] != "java"@[0]); }
    assert("rust"@ != "cpp"@) by { assert("rust"@.len() != "cpp"@.len()); }
    assert("rust"@ != "c"@) by { assert("rust"@.len() != "c"@.len()); }
    assert("rust"@ != "ruby"@) by { assert("rust"@[2] != "ruby"@[2]); }
    assert("rust"@ != "unknown"@) by { assert("rust"@.len() != "unknown"@.len()); }
    assert("python"@ != "go"@) by { assert("python"@.len() != "go"@.len()); }
    assert("python"@ != "typescript"@) by { assert("python"@.len() != "typescript"@.len()); }
    assert("python"@ != "javascript"@) by { assert("python"@.len() != "javascript"@.len()); }
    assert("python"@ != "java"@) by { assert("python"@.len() != "java"@.len()); }
    assert("python"@ != "cpp"@) by { assert("python"@.len() != "cpp"@.len()); }
    assert("python"@ != "c"@) by { assert("python"@.len() != "c"@.len()); }
    assert("python"@ != "ruby"@) by { assert("python"@.len() != "ruby"@.len()); }
    assert("python"@ != "unknown"@) by { assert("python"@.len() != "unknown"@.len()); }
    assert("go"@ != "typescript"@) by { assert("go"@.len() != "typescript"@.len()); }
    assert("go"@ != "javascript"@) by { assert("go"@.len() != "javascript"@.len()); }
    assert("go"@ != "java"@) by { assert("go"@.len() != "java"@.len()); }
    assert("go"@ != "cpp"@) by { assert("go"@.len() != "cpp"@.len()); }
    assert("go"@ != "c"@) by { assert("go"@.len() != "c"@.len()); }
    assert("go"@ != "ruby"@) by { assert("go"@.len() != "ruby"@.len()); }
    assert("go"@ != "unknown"@) by { assert("go"@.len() != "unknown"@.len()); }
    assert("typescript"@ != "javascript"@) by { assert("typescript"@[0] != "javascript"@[0]); }
    assert("typescript"@ != "java"@) by { assert("typescript"@.len() != "java"@.len()); }
    assert("typescript"@ != "cpp"@) by { assert("typescript"@.len() != "cpp"@.len()); }
    assert("typescript"@ != "c"@) by { assert("typescript"@.len() != "c"@.len()); }
    assert("typescript"@ != "ruby"@) by { assert("typescript"@.len() != "ruby"@.len()); }
    assert("typescript"@ != "unknown"@) by { assert("typescript"@.len() != "unknown"@.len()); }
    assert("javascript"@ != "java"@) by { assert("javascript"@.len() != "java"@.len()); }
    assert("javascript"@ != "cpp"@) by { assert("javascript"@.len() != "cpp"@.len()); }
    assert("javascript"@ != "c"@) by { assert("javascript"@.len() != "c"@.len()); }
    assert("javascript"@ != "ruby"@) by { assert("javascript"@.len() != "ruby"@.len()); }
    assert("javascript"@ != "unknown"@) by { assert("javascript"@.len() != "unknown"@.len()); }
    assert("java"@ != "cpp"@) by { assert("java"@.len() != "cpp"@.len()); }
    assert("java"@ != "c"@) by { assert("java"@.len() != "c"@.len()); }
    assert("java"@ != "ruby"@) by { assert("java"@[0] != "ruby"@[0]); }
    assert("java"@ != "unknown"@) by { assert("java"@.len() != "unknown"@.len()); }
    assert("cpp"@ != "c"@) by { assert("cpp"@.len() != "c"@.len()); }
    assert("cpp"@ != "ruby"@) by { assert("cpp"@.len() != "ruby"@.len()); }
    assert("cpp"@ != "unknown"@) by { assert("cpp"@.len() != "unknown"@.len()); }
    assert("c"@ != "ruby"@) by { assert("c"@.len() != "ruby"@.len()); }
    assert("c"@ != "unknown"@) by { assert("c"@.len() != "unknown"@.len()); }
    assert("ruby"@ != "unknown"@) by { assert("ruby"@.len() != "unknown"@.len()); }
}

/// The name of an edge kind, as shown to users and stored.
pub open spec fn edge_kind_name(k: EdgeKind) -> Seq<char> {
    match k {
        EdgeKind::Calls => "calls"@,
        EdgeKind::Imports => "imports"@,
        EdgeKind::Contains => "contains"@,
        EdgeKind::Inherits => "inherits"@,
        EdgeKind::Implements => "implements"@,
        EdgeKind::References => "references"@,
        EdgeKind::DependsOn => "depends_on"@,
    }
}

/// The lowercase file extensions of a language.
pub open spec fn language_extensions(l: Language) -> Seq<Seq<char>> {
    match l {
        Language::Rust => seq!["rs"@],
        Language::Python => seq!["py"@],
        Language::Go => seq!["go"@],
        Language::TypeScript => seq!["ts"@, "tsx"@],
        Language::JavaScript => seq!["js"@, "jsx"@, "mjs"@, "cjs"@],
        Language::Java => seq!["java"@],
        Language::Cpp => seq!["cpp"@, "cc"@, "cxx"@, "hpp"@],
        Language::C => seq!["c"@, "h"@],
        Language::Ruby => seq!["rb"@, "rake"@, "gemspec"@],
        Language::Unknown => seq![],
    }
}

/// The language whose extension list holds `key`, or `Unknown`.
pub open spec fn language_of_key(key: Seq<char>) -> Language {
    if key == "rs"@ {
        Language::Rust
    } else if key == "py"@ {
        Language::Python
    } else if key == "go"@ {
        Language::Go
    } else if key == "ts"@ || key == "tsx"@ {
        Language::TypeScript
    } else if key == "js"@ || key == "jsx"@ || key == "mjs"@ || key == "cjs"@ {
        Language::JavaScript
    } else if key == "java"@ {
        Language::Java
    } else if key == "cpp"@ || key == "cc"@ || key == "cxx"@ || key == "hpp"@ {
        Language::Cpp
    } else if key == "c"@ || key == "h"@ {
        Language::C
    } else if key == "rb"@ || key == "rake"@ || key == "gemspec"@ {
        Language::Ruby
    } else {
        Language::Unknown
    }
}

/// `s` with ASCII uppercase letters turned lowercase.
pub open spec fn ascii_lower(s: Seq<char>) -> Seq<char> {
    Seq::new(
        s.len(),
        |i: int|
            if 'A' <= s[i] && s[i] <= 'Z' {
                ((s[i] as int) + 32) as char
            } else {
                s[i]
            },
    )
}

/// Every character of `s` is ASCII.
pub open spec fn all_ascii(s: Seq<char>) -> bool {
    forall|i: int| 0 <= i < s.len() ==> (#[trigger] s[i] as int) < 128
}

/// The lowercase form of a text (`str::to_lowercase`).
pub uninterp spec fn lowercase(s: Seq<char>) -> Seq<char>;

/// `str::to_lowercase`: the Unicode lowercase mapping of `s`. Claimed
/// beyond the name: on ASCII text it lowercases the letters A-Z and keeps
/// every other character.
#[verifier::external_body]
pub(crate) fn to_lowercase(s: &str) -> (r: String)
    ensures
        r@ == lowercase(s@),
        all_ascii(s@) ==> r@ == ascii_lower(s@),
{
    s.to_lowercase()
}

/// Lowercase letters and digits only.
pub open spec fn plain_key(s: Seq<char>) -> bool {
    forall|i: int| 0 <= i < s.len() ==> ('a' <= #[trigger] s[i] <= 'z') || ('0' <= s[i] <= '9')
}

proof fn lemma_plain_key(s: Seq<char>)
    requires
        plain_key(s),
    ensures
        all_ascii(s),
        ascii_lower(s) == s,
{
    assert(ascii_lower(s) =~= s);
}

/// Every extension a language lists is ASCII, and reading it back as an
/// extension gives that language (in any letter case: see
/// [`lemma_extension_case_ignored`]).
pub proof fn lemma_extensions_name_their_language(l: Language)
    ensures
        forall|i: int|
            0 <= i < language_extensions(l).len() ==> all_ascii(#[trigger] language_extensions(l)[i])
                && language_of_key(ascii_lower(language_extensions(l)[i])) == l,
{
    reveal_strlit("rs");
    assert("rs"@.len() == 2 && "rs"@[0] == 'r' && "rs"@[1] == 's');
    reveal_strlit("py");
    assert("py"@.len() == 2 && "py"@[0] == 'p' && "py"@[1] == 'y');
    reveal_strlit("go");
    assert("go"@.len() == 2 && "go"@[0] == 'g' && "go"@[1] == 'o');
    reveal_strlit("ts");
    assert("ts"@.len() == 2 && "ts"@[0] == 't' && "ts"@[1] == 's');
    reveal_strlit("tsx");
    assert("tsx"@.len() == 3 && "tsx"@[0] == 't' && "tsx"@[1] == 's' && "tsx"@[2] == 'x');
    reveal_strlit("js");
    assert("js"@.len() == 2 && "js"@[0] == 'j' && "js"@[1] == 's');
    reveal_strlit("jsx");
    assert("jsx"@.len() == 3 && "jsx"@[0] == 'j' && "jsx"@[1] == 's' && "jsx"@[2] == 'x');
    reveal_strlit("mjs");
    assert("mjs"@.len() == 3 && "mjs"@[0] == 'm' && "mjs"@[1] == 'j' && "mjs"@[2] == 's');
    reveal_strlit("cjs");
    assert("cjs"@.len() == 3 && "cjs"@[0] == 'c' && "cjs"@[1] == 'j' && "cjs"@[2] == 's');
    reveal_strlit("java");
    assert("java"@.len() == 4 && "java"@[0] == 'j' && "java"@[1] == 'a' && "java"@[2] == 'v' && "java"@[3] == 'a');
    reveal_strlit("cpp");
    assert("cpp"@.len() == 3 && "cpp"@[0] == 'c' && "cpp"@[1] == 'p' && "cpp"@[2] == 'p');
    reveal_strlit("cc");
    assert("cc"@.len() == 2 && "cc"@[0] == 'c' && "cc"@[1] == 'c');
    reveal_strlit("cxx");
    assert("cxx"@.len() == 3 && "cxx"@[0] == 'c' && "cxx"@[1] == 'x' && "cxx"@[2] == 'x');
    reveal_strlit("hpp");
    assert("hpp"@.len() == 3 && "hpp"@[0] == 'h' && "hpp"@[1] == 'p' && "hpp"@[2] == 'p');
    reveal_strlit("c");
    assert("c"@.len() == 1 && "c"@[0] == 'c');
    reveal_strlit("h");
    assert("h"@.len() == 1 && "h"@[0] == 'h');
    reveal_strlit("rb");
    assert("rb"@.len() == 2 && "rb"@[0] == 'r' && "rb"@[1] == 'b');
    reveal_strlit("rake");
    assert("rake"@.len() == 4 && "rake"@[0] == 'r' && "rake"@[1] == 'a' && "rake"@[2] == 'k' && "rake"@[3] == 'e');
    reveal_strlit("gemspec");
    assert("gemspec"@.len() == 7 && "gemspec"@[0] == 'g' && "gemspec"@[1] == 'e' && "gemspec"@[2] == 'm' && "gemspec"@[3] == 's' && "gemspec"@[4] == 'p' && "gemspec"@[5] == 'e' && "gemspec"@[6] == 'c');
    lemma_plain_key("rs"@);
    lemma_plain_key("py"@);
    lemma_plain_key("go"@);
    lemma_plain_key("ts"@);
    lemma_plain_key("tsx"@);
    lemma_plain_key("js"@);
    lemma_plain_key("jsx"@);
    lemma_plain_key("mjs"@);
    lemma_plain_key("cjs"@);
    lemma_plain_key("java"@);
    lemma_plain_key("cpp"@);
    lemma_plain_key("cc"@);
    lemma_plain_key("cxx"@);
    lemma_plain_key("hpp"@);
    lemma_plain_key("c"@);
    lemma_plain_key("h"@);
    lemma_plain_key("rb"@);
    lemma_plain_key("rake"@);
    lemma_plain_key("gemspec"@);
}

/// Lowering the letters of an ASCII text twice is lowering them once, and
/// keeps it ASCII: an extension and its lowercase form name the same
/// language.
pub proof fn lemma_extension_case_ignored(e: Seq<char>)
    requires
        all_ascii(e),
    ensures
        all_ascii(ascii_lower(e)),
        ascii_lower(ascii_lower(e)) == ascii_lower(e),
        language_of_key(ascii_lower(ascii_lower(e))) == language_of_key(ascii_lower(e)),
{
    let a = ascii_lower(e);
    assert forall|i: int| 0 <= i < a.len() implies (#[trigger] a[i] as int) < 128 by {
        assert((e[i] as int) < 128);
    }
    assert(ascii_lower(a) =~= a);
}

/// The language a file extension names, compared without regard to letter
/// case: what [`Language::from_extension`] returns.
pub open spec fn extension_language(ext: Seq<char>) -> Language {
    if all_ascii(ext) {
        language_of_key(ascii_lower(ext))
    } else {
        language_of_key(lowercase(ext))
    }
}

/// The language of the `i`-th extension `l` lists.
proof fn lemma_listed(l: Language, i: int)
    requires
        0 <= i < language_extensions(l).len(),
    ensures
        extension_language(language_extensions(l)[i]) == l,
{
    lemma_extensions_name_their_language(l);
}

/// The extension table: `rs` names Rust; `py` Python; `go` Go; `ts`, `tsx`
/// TypeScript; `js`, `jsx`, `mjs`, `cjs` JavaScript; `java` Java; `cpp`,
/// `cc`, `cxx`, `hpp` C++; `c`, `h` C; `rb`, `rake`, `gemspec` Ruby. Letter
/// case does not matter, and any other extension names no language.
pub proof fn lemma_extension_table()
    ensures
        extension_language("rs"@) == Language::Rust,
        extension_language("py"@) == Language::Python,
        extension_language("go"@) == Language::Go,
        extension_language("ts"@) == Language::TypeScript,
        extension_language("tsx"@) == Language::TypeScript,
        extension_language("js"@) == Language::JavaScript,
        extension_language("jsx"@) == Language::JavaScript,
        extension_language("mjs"@) == Language::JavaScript,
        extension_language("cjs"@) == Language::JavaScript,
        extension_language("java"@) == Language::Java,
        extension_language("cpp"@) == Language::Cpp,
        extension_language("cc"@) == Language::Cpp,
        extension_language("cxx"@) == Language::Cpp,
        extension_language("hpp"@) == Language::Cpp,
        extension_language("c"@) == Language::C,
        extension_language("h"@) == Language::C,
        extension_language("rb"@) == Language::Ruby,
        extension_language("rake"@) == Language::Ruby,
        extension_language("gemspec"@) == Language::Ruby,
        extension_language("H"@) == Language::C,
        extension_language("RS"@) == Language::Rust,
        extension_language("Tsx"@) == Language::TypeScript,
        extension_language("txt"@) == Language::Unknown,
        extension_language(""@) == Language::Unknown,
{
    lemma_listed(Language::Rust, 0);
    lemma_listed(Language::Python, 0);
    lemma_listed(Language::Go, 0);
    lemma_listed(Language::TypeScript, 0);
    lemma_listed(Language::TypeScript, 1);
    lemma_listed(Language::JavaScript, 0);
    lemma_listed(Language::JavaScript, 1);
    lemma_listed(Language::JavaScript, 2);
    lemma_listed(Language::JavaScript, 3);
    lemma_listed(Language::Java, 0);
    lemma_listed(Language::Cpp, 0);
    lemma_listed(Language::Cpp, 1);
    lemma_listed(Language::Cpp, 2);
    lemma_listed(Language::Cpp, 3);
    lemma_listed(Language::C, 0);
    lemma_listed(Language::C, 1);
    lemma_listed(Language::Ruby, 0);
    lemma_listed(Language::Ruby, 1);
    lemma_listed(Language::Ruby, 2);
    reveal_strlit("H");
    reveal_strlit("h");
    assert(ascii_lower("H"@) =~= "h"@);
    reveal_strlit("RS");
    reveal_strlit("rs");
    assert(ascii_lower("RS"@) =~= "rs"@);
    reveal_strlit("Tsx");
    reveal_strlit("tsx");
    assert(ascii_lower("Tsx"@) =~= "tsx"@);
    reveal_strlit("txt");
    reveal_strlit("ts");
    reveal_strlit("py");
    reveal_strlit("go");
    reveal_strlit("js");
    reveal_strlit("jsx");
    reveal_strlit("mjs");
    reveal_strlit("cjs");
    reveal_strlit("java");
    reveal_strlit("cpp");
    reveal_strlit("cc");
    reveal_strlit("cxx");
    reveal_strlit("hpp");
    reveal_strlit("c");
    reveal_strlit("rb");
    reveal_strlit("rake");
    reveal_strlit("gemspec");
    assert("txt"@[1] != "tsx"@[1]);
    assert("txt"@[0] != "jsx"@[0]);
    assert("txt"@[0] != "mjs"@[0]);
    assert("txt"@[0] != "cjs"@[0]);
    assert("txt"@[0] != "cpp"@[0]);
    assert("txt"@[0] != "cxx"@[0]);
    assert("txt"@[0] != "hpp"@[0]);
    assert(all_ascii("txt"@));
    assert(ascii_lower("txt"@) =~= "txt"@);
    reveal_strlit("");
    assert(ascii_lower(""@) =~= ""@);
}

/// A key that a language other than `Unknown` does not list names another
/// language, and one it lists names it: the key names `l` exactly when `l`
/// lists it.
pub proof fn lemma_key_names_listing_language(key: Seq<char>, l: Language)
    requires
        l != Language::Unknown,
    ensures
        language_of_key(key) == l <==> language_extensions(l).contains(key),
{
    lemma_extensions_name_their_language(l);
    if language_extensions(l).contains(key) {
        let i = choose|i: int| 0 <= i < language_extensions(l).len() && language_extensions(l)[i] == key;
        lemma_plain_listed(l, i);
    }
    if language_of_key(key) == l {
        match l {
            Language::Rust => assert(language_extensions(l)[0] == key),
            Language::Python => assert(language_extensions(l)[0] == key),
            Language::Go => assert(language_extensions(l)[0] == key),
            Language::TypeScript => {
                if key == "ts"@ { assert(language_extensions(l)[0] == key); } else { assert(language_extensions(l)[1] == key); }
            },
            Language::JavaScript => {
                if key == "js"@ { assert(language_extensions(l)[0] == key); }
                else if key == "jsx"@ { assert(language_extensions(l)[1] == key); }
                else if key == "mjs"@ { assert(language_extensions(l)[2] == key); }
                else { assert(language_extensions(l)[3] == key); }
            },
            Language::Java => assert(language_extensions(l)[0] == key),
            Language::Cpp => {
                if key == "cpp"@ { assert(language_extensions(l)[0] == key); }
                else if key == "cc"@ { assert(language_extensions(l)[1] == key); }
                else if key == "cxx"@ { assert(language_extensions(l)[2] == key); }
                else { assert(language_extensions(l)[3] == key); }
            },
            Language::C => {
                if key == "c"@ { assert(language_extensions(l)[0] == key); } else { assert(language_extensions(l)[1] == key); }
            },
            Language::Ruby => {
                if key == "rb"@ { assert(language_extensions(l)[0] == key); }
                else if key == "rake"@ { assert(language_extensions(l)[1] == key); }
                else { assert(language_extensions(l)[2] == key); }
            },
            Language::Unknown => {},
        }
    }
}

/// A listed extension is its own lowercase key, naming its language.
proof fn lemma_plain_listed(l: Language, i: int)
    requires
        0 <= i < language_extensions(l).len(),
    ensures
        language_of_key(language_extensions(l)[i]) == l,
{
    lemma_extensions_name_their_language(l);
    let e = language_extensions(l)[i];
    reveal_strlit("rs");
    reveal_strlit("py");
    reveal_strlit("go");
    reveal_strlit("ts");
    reveal_strlit("tsx");
    reveal_strlit("js");
    reveal_strlit("jsx");
    reveal_strlit("mjs");
    reveal_strlit("cjs");
    reveal_strlit("java");
    reveal_strlit("cpp");
    reveal_strlit("cc");
    reveal_strlit("cxx");
    reveal_strlit("hpp");
    reveal_strlit("c");
    reveal_strlit("h");
    reveal_strlit("rb");
    reveal_strlit("rake");
    reveal_strlit("gemspec");
    assert(ascii_lower(e) =~= e);
}

impl Language {
    /// Detect language from file extension (case-insensitively).
    pub fn from_extension(ext: &str) -> (l: Language)
        ensures
            l == language_of_key(lowercase(ext@)),
            all_ascii(ext@) ==> l == language_of_key(ascii_lower(ext@)),
            l == extension_language(ext@),
    {
        let key = to_lowercase(ext);
        let k = key.as_str();
        if str_eq(k, "rs") {
            Language::Rust
        } else if str_eq(k, "py") {
            Language::Python
        } else if str_eq(k, "go") {
            Language::Go
        } else if str_eq(k, "ts") || str_eq(k, "tsx") {
            Language::TypeScript
        } else if str_eq(k, "js") || str_eq(k, "jsx") || str_eq(k, "mjs") || str_eq(k, "cjs") {
            Language::JavaScript
        } else if str_eq(k, "java") {
            Language::Java
        } else if str_eq(k, "cpp") || str_eq(k, "cc") || str_eq(k, "cxx") || str_eq(k, "hpp") {
            Language::Cpp
        } else if str_eq(k, "c") || str_eq(k, "h") {
            Language::C
        } else if str_eq(k, "rb") || str_eq(k, "rake") || str_eq(k, "gemspec") {
            Language::Ruby
        } else {
            Language::Unknown
        }
    }

    /// File extensions for this language.
    pub fn extensions(&self) -> (r: &'static [&'static str])
        ensures
            r@.map_values(|e: &str| e@) == language_extensions(*self),
    {
        let r: &'static [&'static str] = match self {
            Language::Rust => &["rs"],
            Language::Python => &["py"],
            Language::Go => &["go"],
            Language::TypeScript => &["ts", "tsx"],
            Language::JavaScript => &["js", "jsx", "mjs", "cjs"],
            Language::Java => &["java"],
            Language::Cpp => &["cpp", "cc", "cxx", "hpp"],
            Language::C => &["c", "h"],
            Language::Ruby => &["rb", "rake", "gemspec"],
            Language::Unknown => &[],
        };
        assert(r@.map_values(|e: &str| e@) =~= language_extensions(*self));
        r
    }

    /// The language's name (`"rust"`, `"python"`, ...).
    pub fn to_string(&self) -> (s: String)
        ensures
            s@ == language_name(*self),
    {
        owned(
            match self {
                Language::Rust => "rust",
                Language::Python => "python",
                Language::Go => "go",
                Language::TypeScript => "typescript",
                Language::JavaScript => "javascript",
                Language::Java => "java",
                Language::Cpp => "cpp",
                Language::C => "c",
                Language::Ruby => "ruby",
                Language::Unknown => "unknown",
            },
        )
    }
}

impl NodeKind {
    /// The kind's name (`"function"`, `"type_alias"`, ...).
    pub fn to_string(&self) -> (s: String)
        ensures
            s@ == node_kind_name(*self),
    {
        owned(
            match self {
                NodeKind::File => "file",
                NodeKind::Module => "module",
                NodeKind::Function => "function",
                NodeKind::Method => "method",
                NodeKind::Class => "class",
                NodeKind::Struct => "struct",
                NodeKind::Enum => "enum",
                NodeKind::Trait => "trait",
                NodeKind::Interface => "interface",
                NodeKind::Constant => "constant",
                NodeKind::Variable => "variable",
                NodeKind::TypeAlias => "type_alias",
                NodeKind::Import => "import",
            },
        )
    }
}

impl EdgeKind {
    /// The edge kind's name (`"calls"`, `"depends_on"`, ...).
    pub fn to_string(&self) -> (s: String)
        ensures
            s@ == edge_kind_name(*self),
    {
        owned(
            match self {
                EdgeKind::Calls => "calls",
                EdgeKind::Imports => "imports",
                EdgeKind::Contains => "contains",
                EdgeKind::Inherits => "inherits",
                EdgeKind::Implements => "implements",
                EdgeKind::References => "references",
                EdgeKind::DependsOn => "depends_on",
            },
        )
    }
}

} // verus!
