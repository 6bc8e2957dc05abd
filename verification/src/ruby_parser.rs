//! Ruby: methods (singleton ones too), classes, modules, constants, and the
//! calls that bring code in (`require`, `include`, `attr_*`, ...).
use vstd::prelude::*;
use crate::extract::{all_entities_of, lemma_entities_add, assemble, file_entity, entity_at, field_text, parse_error, parse_failure, parse_value, trimmed_text};
use crate::model::{DeagleError, Language, Node, NodeKind, NodeValue, ParseResult, node_values, lemma_node_values_push};
use crate::grammar::{Grammar, syntax_tree, syntax_view, tree_rows_in_order};
use vstd::utf8::encode_utf8;
use crate::syntax::{Document, SyntaxTree, TreeView, field_child, first_of_kind, kids, kind_of, lemma_kids_bounds, opt_text_eq, text_of};
use crate::text::str_eq;

verus! {

/// The method name of a `call` that brings code in: `require`,
/// `require_relative`, `include`, `extend` and the `attr_*` accessors.
pub open spec fn is_import_call(name: Seq<char>) -> bool {
    name == "require"@ || name == "require_relative"@ || name == "include"@ || name == "extend"@
        || name == "attr_accessor"@ || name == "attr_reader"@ || name == "attr_writer"@
}

/// The kind of entity node `i` declares, if any.
pub open spec fn ruby_kind(t: TreeView, i: int) -> Option<NodeKind> {
    let k = kind_of(t, i);
    if k == "method"@ || k == "singleton_method"@ {
        Some(NodeKind::Method)
    } else if k == "class"@ {
        Some(NodeKind::Class)
    } else if k == "module"@ {
        Some(NodeKind::Module)
    } else if k == "constant_assignment"@ || k == "casgn"@ {
        Some(NodeKind::Constant)
    } else if k == "call"@ {
        match field_child(t, i, "method"@) {
            Some(m) => if is_import_call(
                match text_of(t, m as int) {
                    Some(s) => s,
                    None => Seq::empty(),
                },
            ) {
                Some(NodeKind::Import)
            } else {
                None
            },
            None => None,
        }
    } else {
        None
    }
}

/// The name of the entity of kind `k` that node `i` declares.
pub open spec fn ruby_name(t: TreeView, i: int, k: NodeKind) -> Option<Seq<char>> {
    match k {
        NodeKind::Constant => match first_of_kind(t, kids(t, i), "constant"@) {
            Some(c) => text_of(t, c as int),
            None => None,
        },
        NodeKind::Import => trimmed_text(t, i),
        _ => field_text(t, i, "name"@),
    }
}

/// The entity node `i` itself yields.
pub open spec fn ruby_entity(t: TreeView, path: Seq<char>, i: int) -> Seq<NodeValue> {
    match ruby_kind(t, i) {
        Some(k) => match ruby_name(t, i, k) {
            Some(n) => seq![entity_at(t, i, n, k, Language::Ruby, path)],
            None => seq![],
        },
        None => seq![],
    }
}

/// Entities found in the subtree of node `i`, in document order.
pub open spec fn ruby_defs(t: TreeView, path: Seq<char>, i: int) -> Seq<NodeValue>
    decreases t.nodes.len() - i, kids(t, i).len() + 1,
{
    if 0 <= i < t.nodes.len() {
        ruby_entity(t, path, i) + ruby_defs_list(t, path, i, kids(t, i))
    } else {
        seq![]
    }
}

/// Entities found in the subtrees of the children `cs` of node `p`.
pub open spec fn ruby_defs_list(t: TreeView, path: Seq<char>, p: int, cs: Seq<usize>) -> Seq<
    NodeValue,
>
    decreases t.nodes.len() - p, cs.len(),
{
    if cs.len() == 0 {
        seq![]
    } else {
        ruby_defs_list(t, path, p, cs.drop_last()) + if p < cs.last() < t.nodes.len() {
            ruby_defs(t, path, cs.last() as int)
        } else {
            seq![]
        }
    }
}

fn is_import_call_name(name: &str) -> (r: bool)
    ensures
        r == is_import_call(name@),
{
    str_eq(name, "require") || str_eq(name, "require_relative") || str_eq(name, "include")
        || str_eq(name, "extend") || str_eq(name, "attr_accessor") || str_eq(name, "attr_reader")
        || str_eq(name, "attr_writer")
}

fn kind_at(d: &Document, i: usize) -> (r: Option<NodeKind>)
    requires
        d.wf(),
        i < d.tree@.nodes.len(),
    ensures
        r == ruby_kind(d.tree@, i as int),
{
    if d.kind_is(i, "method") || d.kind_is(i, "singleton_method") {
        Some(NodeKind::Method)
    } else if d.kind_is(i, "class") {
        Some(NodeKind::Class)
    } else if d.kind_is(i, "module") {
        Some(NodeKind::Module)
    } else if d.kind_is(i, "constant_assignment") || d.kind_is(i, "casgn") {
        Some(NodeKind::Constant)
    } else if d.kind_is(i, "call") {
        match d.field_child(i, "method") {
            Some(m) => {
                let name = match d.text(m) {
                    Some(s) => s,
                    None => String::new(),
                };
                if is_import_call_name(name.as_str()) {
                    Some(NodeKind::Import)
                } else {
                    None
                }
            },
            None => None,
        }
    } else {
        None
    }
}

fn name_at(d: &Document, i: usize, k: NodeKind) -> (r: Option<String>)
    requires
        d.wf(),
        i < d.tree@.nodes.len(),
    ensures
        opt_text_eq(r, ruby_name(d.tree@, i as int, k)),
{
    match k {
        NodeKind::Constant => match d.child_of_kind(i, "constant") {
            Some(c) => d.text(c),
            None => None,
        },
        NodeKind::Import => d.trimmed_text(i),
        _ => d.field_text(i, "name"),
    }
}

fn visit(d: &Document, path: &str, i: usize, out: &mut Vec<Node>)
    requires
        d.wf(),
        i < d.tree@.nodes.len(),
    ensures
        node_values(final(out)@) == node_values(old(out)@) + ruby_defs(d.tree@, path@, i as int),
    decreases d.tree@.nodes.len() - i,
{
    let ghost t = d.tree@;
    let ghost start = node_values(out@);
    match kind_at(d, i) {
        Some(k) => match name_at(d, i, k) {
            Some(n) => {
                let e = d.entity(i, n, k, Language::Ruby, path);
                proof {
                    lemma_node_values_push(out@, e);
                }
                out.push(e);
            },
            None => {},
        },
        None => {},
    }
    let ghost mid = node_values(out@);
    assert(mid == start + ruby_entity(t, path@, i as int));
    let cs = &d.kids[i];
    proof {
        lemma_kids_bounds(t, i as int);
    }
    let mut m: usize = 0;
    assert(cs@.subrange(0, 0) =~= Seq::<usize>::empty());
    while m < cs.len()
        invariant
            d.wf(),
            t == d.tree@,
            i < t.nodes.len(),
            cs@ == kids(t, i as int),
            forall|x: int| 0 <= x < cs@.len() ==> i < #[trigger] cs@[x] < t.nodes.len(),
            m <= cs@.len(),
            node_values(out@) == mid + ruby_defs_list(t, path@, i as int, cs@.subrange(0, m as int)),
        decreases cs@.len() - m,
    {
        let c = cs[m];
        let ghost before = node_values(out@);
        visit(d, path, c, out);
        assert(cs@.subrange(0, m + 1).drop_last() =~= cs@.subrange(0, m as int));
        assert(ruby_defs_list(t, path@, i as int, cs@.subrange(0, m + 1)) == ruby_defs_list(
            t,
            path@,
            i as int,
            cs@.subrange(0, m as int),
        ) + ruby_defs(t, path@, c as int));
        assert(node_values(out@) =~= mid + ruby_defs_list(
            t,
            path@,
            i as int,
            cs@.subrange(0, m + 1),
        ));
        m = m + 1;
    }
    assert(cs@.subrange(0, cs@.len() as int) =~= cs@);
    assert(node_values(out@) =~= start + ruby_defs(t, path@, i as int));
}

/// The Ruby entities of a syntax tree, in document order.
pub fn definitions(d: &Document, path: &str) -> (r: Vec<Node>)
    requires
        d.wf(),
    ensures
        node_values(r@) == if d.tree@.nodes.len() > 0 {
            ruby_defs(d.tree@, path@, 0)
        } else {
            seq![]
        },
{
    let mut out: Vec<Node> = Vec::new();
    if d.tree.nodes.len() > 0 {
        visit(d, path, 0, &mut out);
        assert(node_values(Seq::<Node>::empty()) =~= Seq::<NodeValue>::empty());
        assert(node_values(out@) =~= ruby_defs(d.tree@, path@, 0));
    } else {
        assert(node_values(out@) =~= Seq::<NodeValue>::empty());
    }
    out
}

proof fn lemma_ruby_defs_entities(t: TreeView, path: Seq<char>, i: int)
    ensures
        all_entities_of(ruby_defs(t, path, i), t, Language::Ruby, path),
    decreases t.nodes.len() - i, kids(t, i).len() + 1,
{
    if 0 <= i < t.nodes.len() {
        lemma_ruby_defs_list_entities(t, path, i, kids(t, i));
        lemma_entities_add(ruby_entity(t, path, i), ruby_defs_list(t, path, i, kids(t, i)), t, Language::Ruby, path);
    }
}

proof fn lemma_ruby_defs_list_entities(t: TreeView, path: Seq<char>, p: int, cs: Seq<usize>)
    ensures
        all_entities_of(ruby_defs_list(t, path, p, cs), t, Language::Ruby, path),
    decreases t.nodes.len() - p, cs.len(),
{
    if cs.len() > 0 {
        lemma_ruby_defs_list_entities(t, path, p, cs.drop_last());
        if p < cs.last() < t.nodes.len() {
            lemma_ruby_defs_entities(t, path, cs.last() as int);
            lemma_entities_add(ruby_defs_list(t, path, p, cs.drop_last()), ruby_defs(t, path, cs.last() as int), t, Language::Ruby, path);
        } else {
            lemma_entities_add(ruby_defs_list(t, path, p, cs.drop_last()), seq![], t, Language::Ruby, path);
        }
    }
}

/// Every entity the Ruby extractor finds belongs to the file at `path`, is
/// tagged Ruby, is unsaved, and is not a file node.
pub proof fn lemma_ruby_entities_of_file(t: TreeView, path: Seq<char>)
    ensures
        all_entities_of(ruby_entities(t, path), t, Language::Ruby, path),
{
    if t.nodes.len() > 0 {
        lemma_ruby_defs_entities(t, path, 0);
    }
}

/// The Ruby entity-kind table: `def` and `def self.` declare methods,
/// `class` a class, `module` a module, a constant assignment a constant,
/// and a call of `require`, `require_relative`, `include`, `extend` or an
/// `attr_*` accessor an import.
pub proof fn lemma_ruby_kind_table(t: TreeView, i: int, name: Seq<char>)
    ensures
        kind_of(t, i) == "method"@ ==> ruby_kind(t, i) == Some(NodeKind::Method),
        kind_of(t, i) == "singleton_method"@ ==> ruby_kind(t, i) == Some(NodeKind::Method),
        kind_of(t, i) == "class"@ ==> ruby_kind(t, i) == Some(NodeKind::Class),
        kind_of(t, i) == "module"@ ==> ruby_kind(t, i) == Some(NodeKind::Module),
        kind_of(t, i) == "constant_assignment"@ ==> ruby_kind(t, i) == Some(NodeKind::Constant),
        kind_of(t, i) == "casgn"@ ==> ruby_kind(t, i) == Some(NodeKind::Constant),
        is_import_call(name) <==> (name == "require"@ || name == "require_relative"@ || name == "include"@ || name == "extend"@ || name == "attr_accessor"@ || name == "attr_reader"@ || name == "attr_writer"@),
        kind_of(t, i) == "call"@ ==> (ruby_kind(t, i) is Some ==> ruby_kind(t, i) == Some(NodeKind::Import)),
{
    reveal_strlit("method");
    reveal_strlit("singleton_method");
    reveal_strlit("class");
    reveal_strlit("module");
    reveal_strlit("constant_assignment");
    reveal_strlit("casgn");
    reveal_strlit("call");
    reveal_strlit("require");
    reveal_strlit("require_relative");
    reveal_strlit("include");
    reveal_strlit("extend");
    reveal_strlit("attr_accessor");
    reveal_strlit("attr_reader");
    reveal_strlit("attr_writer");
    assert("method"@ != "singleton_method"@) by { assert("method"@.len() != "singleton_method"@.len()); }
    assert("method"@ != "class"@) by { assert("method"@.len() != "class"@.len()); }
    assert("method"@ != "module"@) by { assert("method"@[1] != "module"@[1]); }
    assert("method"@ != "constant_assignment"@) by { assert("method"@.len() != "constant_assignment"@.len()); }
    assert("method"@ != "casgn"@) by { assert("method"@.len() != "casgn"@.len()); }
    assert("method"@ != "call"@) by { assert("method"@.len() != "call"@.len()); }
    assert("method"@ != "require"@) by { assert("method"@.len() != "require"@.len()); }
    assert("method"@ != "require_relative"@) by { assert("method"@.len() != "require_relative"@.len()); }
    assert("method"@ != "include"@) by { assert("method"@.len() != "include"@.len()); }
    assert("method"@ != "extend"@) by { assert("method"@[0] != "extend"@[0]); }
    assert("method"@ != "attr_accessor"@) by { assert("method"@.len() != "attr_accessor"@.len()); }
    assert("method"@ != "attr_reader"@) by { assert("method"@.len() != "attr_reader"@.len()); }
    assert("method"@ != "attr_writer"@) by { assert("method"@.len() != "attr_writer"@.len()); }
    assert("singleton_method"@ != "class"@) by { assert("singleton_method"@.len() != "class"@.len()); }
    assert("singleton_method"@ != "module"@) by { assert("singleton_method"@.len() != "module"@.len()); }
    assert("singleton_method"@ != "constant_assignment"@) by { assert("singleton_method"@.len() != "constant_assignment"@.len()); }
    assert("singleton_method"@ != "casgn"@) by { assert("singleton_method"@.len() != "casgn"@.len()); }
    assert("singleton_method"@ != "call"@) by { assert("singleton_method"@.len() != "call"@.len()); }
    assert("singleton_method"@ != "require"@) by { assert("singleton_method"@.len() != "require"@.len()); }
    assert("singleton_method"@ != "require_relative"@) by { assert("singleton_method"@[0] != "require_relative"@[0]); }
    assert("singleton_method"@ != "include"@) by { assert("singleton_method"@.len() != "include"@.len()); }
    assert("singleton_method"@ != "extend"@) by { assert("singleton_method"@.len() != "extend"@.len()); }
    assert("singleton_method"@ != "attr_accessor"@) by { assert("singleton_method"@.len() != "attr_accessor"@.len()); }
    assert("singleton_method"@ != "attr_reader"@) by { assert("singleton_method"@.len() != "attr_reader"@.len()); }
    assert("singleton_method"@ != "attr_writer"@) by { assert("singleton_method"@.len() != "attr_writer"@.len()); }
    assert("class"@ != "module"@) by { assert("class"@.len() != "module"@.len()); }
    assert("class"@ != "constant_assignment"@) by { assert("class"@.len() != "constant_assignment"@.len()); }
    assert("class"@ != "casgn"@) by { assert("class"@[1] != "casgn"@[1]); }
    assert("class"@ != "call"@) by { assert("class"@.len() != "call"@.len()); }
    assert("class"@ != "require"@) by { assert("class"@.len() != "require"@.len()); }
    assert("class"@ != "require_relative"@) by { assert("class"@.len() != "require_relative"@.len()); }
    assert("class"@ != "include"@) by { assert("class"@.len() != "include"@.len()); }
    assert("class"@ != "extend"@) by { assert("class"@.len() != "extend"@.len()); }
    assert("class"@ != "attr_accessor"@) by { assert("class"@.len() != "attr_accessor"@.len()); }
    assert("class"@ != "attr_reader"@) by { assert("class"@.len() != "attr_reader"@.len()); }
    assert("class"@ != "attr_writer"@) by { assert("class"@.len() != "attr_writer"@.len()); }
    assert("module"@ != "constant_assignment"@) by { assert("module"@.len() != "constant_assignment"@.len()); }
    assert("module"@ != "casgn"@) by { assert("module"@.len() != "casgn"@.len()); }
    assert("module"@ != "call"@) by { assert("module"@.len() != "call"@.len()); }
    assert("module"@ != "require"@) by { assert("module"@.len() != "require"@.len()); }
    assert("module"@ != "require_relative"@) by { assert("module"@.len() != "require_relative"@.len()); }
    assert("module"@ != "include"@) by { assert("module"@.len() != "include"@.len()); }
    assert("module"@ != "extend"@) by { assert("module"@[0] != "extend"@[0]); }
    assert("module"@ != "attr_accessor"@) by { assert("module"@.len() != "attr_accessor"@.len()); }
    assert("module"@ != "attr_reader"@) by { assert("module"@.len() != "attr_reader"@.len()); }
    assert("module"@ != "attr_writer"@) by { assert("module"@.len() != "attr_writer"@.len()); }
    assert("constant_assignment"@ != "casgn"@) by { assert("constant_assignment"@.len() != "casgn"@.len()); }
    assert("constant_assignment"@ != "call"@) by { assert("constant_assignment"@.len() != "call"@.len()); }
    assert("constant_assignment"@ != "require"@) by { assert("constant_assignment"@.len() != "require"@.len()); }
    assert("constant_assignment"@ != "require_relative"@) by { assert("constant_assignment"@.len() != "require_relative"@.len()); }
    assert("constant_assignment"@ != "include"@) by { assert("constant_assignment"@.len() != "include"@.len()); }
    assert("constant_assignment"@ != "extend"@) by { assert("constant_assignment"@.len() != "extend"@.len()); }
    assert("constant_assignment"@ != "attr_accessor"@) by { assert("constant_assignment"@.len() != "attr_accessor"@.len()); }
    assert("constant_assignment"@ != "attr_reader"@) by { assert("constant_assignment"@.len() != "attr_reader"@.len()); }
    assert("constant_assignment"@ != "attr_writer"@) by { assert("constant_assignment"@.len() != "attr_writer"@.len()); }
    assert("casgn"@ != "call"@) by { assert("casgn"@.len() != "call"@.len()); }
    assert("casgn"@ != "require"@) by { assert("casgn"@.len() != "require"@.len()); }
    assert("casgn"@ != "require_relative"@) by { assert("casgn"@.len() != "require_relative"@.len()); }
    assert("casgn"@ != "include"@) by { assert("casgn"@.len() != "include"@.len()); }
    assert("casgn"@ != "extend"@) by { assert("casgn"@.len() != "extend"@.len()); }
    assert("casgn"@ != "attr_accessor"@) by { assert("casgn"@.len() != "attr_accessor"@.len()); }
    assert("casgn"@ != "attr_reader"@) by { assert("casgn"@.len() != "attr_reader"@.len()); }
    assert("casgn"@ != "attr_writer"@) by { assert("casgn"@.len() != "attr_writer"@.len()); }
    assert("call"@ != "require"@) by { assert("call"@.len() != "require"@.len()); }
    assert("call"@ != "require_relative"@) by { assert("call"@.len() != "require_relative"@.len()); }
    assert("call"@ != "include"@) by { assert("call"@.len() != "include"@.len()); }
    assert("call"@ != "extend"@) by { assert("call"@.len() != "extend"@.len()); }
    assert("call"@ != "attr_accessor"@) by { assert("call"@.len() != "attr_accessor"@.len()); }
    assert("call"@ != "attr_reader"@) by { assert("call"@.len() != "attr_reader"@.len()); }
    assert("call"@ != "attr_writer"@) by { assert("call"@.len() != "attr_writer"@.len()); }
    assert("require"@ != "require_relative"@) by { assert("require"@.len() != "require_relative"@.len()); }
    assert("require"@ != "include"@) by { assert("require"@[0] != "include"@[0]); }
    assert("require"@ != "extend"@) by { assert("require"@.len() != "extend"@.len()); }
    assert("require"@ != "attr_accessor"@) by { assert("require"@.len() != "attr_accessor"@.len()); }
    assert("require"@ != "attr_reader"@) by { assert("require"@.len() != "attr_reader"@.len()); }
    assert("require"@ != "attr_writer"@) by { assert("require"@.len() != "attr_writer"@.len()); }
    assert("require_relative"@ != "include"@) by { assert("require_relative"@.len() != "include"@.len()); }
    assert("require_relative"@ != "extend"@) by { assert("require_relative"@.len() != "extend"@.len()); }
    assert("require_relative"@ != "attr_accessor"@) by { assert("require_relative"@.len() != "attr_accessor"@.len()); }
    assert("require_relative"@ != "attr_reader"@) by { assert("require_relative"@.len() != "attr_reader"@.len()); }
    assert("require_relative"@ != "attr_writer"@) by { assert("require_relative"@.len() != "attr_writer"@.len()); }
    assert("include"@ != "extend"@) by { assert("include"@.len() != "extend"@.len()); }
    assert("include"@ != "attr_accessor"@) by { assert("include"@.len() != "attr_accessor"@.len()); }
    assert("include"@ != "attr_reader"@) by { assert("include"@.len() != "attr_reader"@.len()); }
    assert("include"@ != "attr_writer"@) by { assert("include"@.len() != "attr_writer"@.len()); }
    assert("extend"@ != "attr_accessor"@) by { assert("extend"@.len() != "attr_accessor"@.len()); }
    assert("extend"@ != "attr_reader"@) by { assert("extend"@.len() != "attr_reader"@.len()); }
    assert("extend"@ != "attr_writer"@) by { assert("extend"@.len() != "attr_writer"@.len()); }
    assert("attr_accessor"@ != "attr_reader"@) by { assert("attr_accessor"@.len() != "attr_reader"@.len()); }
    assert("attr_accessor"@ != "attr_writer"@) by { assert("attr_accessor"@.len() != "attr_writer"@.len()); }
    assert("attr_reader"@ != "attr_writer"@) by { assert("attr_reader"@[5] != "attr_writer"@[5]); }
}

/// The Ruby entities of a whole syntax tree.
pub open spec fn ruby_entities(t: TreeView, path: Seq<char>) -> Seq<NodeValue> {
    if t.nodes.len() > 0 {
        ruby_defs(t, path, 0)
    } else {
        seq![]
    }
}

/// Builds the parse of `content` at `path` from its Ruby syntax tree: the file
/// node, the entities in document order, and a `Contains` edge from the file
/// node to each entity.
pub fn parse_tree(path: &str, content: &str, tree: SyntaxTree) -> (r: ParseResult)
    ensures
        parse_value(r, path@, content@, Language::Ruby, ruby_entities(tree@, path@)),
{
    let d = Document::new(tree);
    let defs = definitions(&d, path);
    assemble(path, content, Language::Ruby, defs)
}

/// Parses a Ruby source file: the file node, its entities and the `Contains`
/// edges from the file node to each entity. Fails only when the
/// tree-sitter grammar cannot be loaded; any text, malformed or not, parses.
pub fn parse_with_edges(path: &str, content: &str) -> (r: Result<ParseResult, DeagleError>)
    ensures
        match syntax_view(Grammar::Ruby, content@) {
            Some(t) => r matches Ok(p) && parse_value(p, path@, content@, Language::Ruby, ruby_entities(t, path@)),
            None => r matches Err(e) && parse_failure(e, path@, Grammar::Ruby),
        },
        syntax_view(Grammar::Ruby, content@) matches Some(t) ==> (encode_utf8(content@).len() < u32::MAX
            ==> tree_rows_in_order(t)),
{
    match syntax_tree(Grammar::Ruby, content) {
        Ok(tree) => Ok(parse_tree(path, content, tree)),
        Err(m) => Err(parse_error(path, m)),
    }
}

/// Parses a Ruby source file into its nodes (the file node first).
pub fn parse(path: &str, content: &str) -> (r: Result<Vec<Node>, DeagleError>)
    ensures
        match syntax_view(Grammar::Ruby, content@) {
            Some(t) => r matches Ok(v) && node_values(v@) == seq![file_entity(path@, content@, Language::Ruby)] + ruby_entities(t, path@),
            None => r matches Err(e) && parse_failure(e, path@, Grammar::Ruby),
        },
        syntax_view(Grammar::Ruby, content@) matches Some(t) ==> (encode_utf8(content@).len() < u32::MAX
            ==> tree_rows_in_order(t)),
{
    match parse_with_edges(path, content) {
        Ok(p) => Ok(p.nodes),
        Err(e) => Err(e),
    }
}
} // verus!
