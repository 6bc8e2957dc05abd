//! Go: functions, methods, structs, interfaces, type aliases, imports,
//! constants and the package clause.
use vstd::prelude::*;
use crate::extract::{all_entities_of, lemma_entities_add, assemble, file_entity, entity_at, field_text, parse_error, parse_failure, parse_value, trimmed_text};
use crate::model::{DeagleError, Language, Node, NodeKind, NodeValue, ParseResult, node_values, lemma_node_values_push};
use crate::grammar::{Grammar, syntax_tree, syntax_view, tree_rows_in_order};
use vstd::utf8::encode_utf8;
use crate::syntax::{Document, SyntaxTree, TreeView, field_child, first_of_kind, kids, kind_of, lemma_kids_bounds, opt_text_eq, text_of};

verus! {

/// The kind of entity node `i` declares, if any.
pub open spec fn go_kind(t: TreeView, i: int) -> Option<NodeKind> {
    let k = kind_of(t, i);
    if k == "function_declaration"@ {
        Some(NodeKind::Function)
    } else if k == "method_declaration"@ {
        Some(NodeKind::Method)
    } else if k == "type_spec"@ {
        match field_child(t, i, "type"@) {
            Some(c) => if kind_of(t, c as int) == "struct_type"@ {
                Some(NodeKind::Struct)
            } else if kind_of(t, c as int) == "interface_type"@ {
                Some(NodeKind::Interface)
            } else {
                Some(NodeKind::TypeAlias)
            },
            None => None,
        }
    } else if k == "import_declaration"@ {
        Some(NodeKind::Import)
    } else if k == "const_spec"@ {
        Some(NodeKind::Constant)
    } else if k == "package_clause"@ {
        Some(NodeKind::Module)
    } else {
        None
    }
}

/// The name of the entity of kind `k` that node `i` declares.
pub open spec fn go_name(t: TreeView, i: int, k: NodeKind) -> Option<Seq<char>> {
    match k {
        NodeKind::Import => trimmed_text(t, i),
        NodeKind::Module => match field_child(t, i, "name"@) {
            Some(c) => text_of(t, c as int),
            None => match first_of_kind(t, kids(t, i), "package_identifier"@) {
                Some(c) => text_of(t, c as int),
                None => None,
            },
        },
        _ => field_text(t, i, "name"@),
    }
}

/// The entity node `i` itself yields.
pub open spec fn go_entity(t: TreeView, path: Seq<char>, i: int) -> Seq<NodeValue> {
    match go_kind(t, i) {
        Some(k) => match go_name(t, i, k) {
            Some(n) => seq![entity_at(t, i, n, k, Language::Go, path)],
            None => seq![],
        },
        None => seq![],
    }
}

/// Entities found in the subtree of node `i`, in document order.
pub open spec fn go_defs(t: TreeView, path: Seq<char>, i: int) -> Seq<NodeValue>
    decreases t.nodes.len() - i, kids(t, i).len() + 1,
{
    if 0 <= i < t.nodes.len() {
        go_entity(t, path, i) + go_defs_list(t, path, i, kids(t, i))
    } else {
        seq![]
    }
}

/// Entities found in the subtrees of the children `cs` of node `p`.
pub open spec fn go_defs_list(t: TreeView, path: Seq<char>, p: int, cs: Seq<usize>) -> Seq<
    NodeValue,
>
    decreases t.nodes.len() - p, cs.len(),
{
    if cs.len() == 0 {
        seq![]
    } else {
        go_defs_list(t, path, p, cs.drop_last()) + if p < cs.last() < t.nodes.len() {
            go_defs(t, path, cs.last() as int)
        } else {
            seq![]
        }
    }
}

fn kind_at(d: &Document, i: usize) -> (r: Option<NodeKind>)
    requires
        d.wf(),
        i < d.tree@.nodes.len(),
    ensures
        r == go_kind(d.tree@, i as int),
{
    if d.kind_is(i, "function_declaration") {
        Some(NodeKind::Function)
    } else if d.kind_is(i, "method_declaration") {
        Some(NodeKind::Method)
    } else if d.kind_is(i, "type_spec") {
        match d.field_child(i, "type") {
            Some(c) => if d.kind_is(c, "struct_type") {
                Some(NodeKind::Struct)
            } else if d.kind_is(c, "interface_type") {
                Some(NodeKind::Interface)
            } else {
                Some(NodeKind::TypeAlias)
            },
            None => None,
        }
    } else if d.kind_is(i, "import_declaration") {
        Some(NodeKind::Import)
    } else if d.kind_is(i, "const_spec") {
        Some(NodeKind::Constant)
    } else if d.kind_is(i, "package_clause") {
        Some(NodeKind::Module)
    } else {
        None
    }
}

fn name_at(d: &Document, i: usize, k: NodeKind) -> (r: Option<String>)
    requires
        d.wf(),
        i < d.tree@.nodes.len(),
    ensures
        opt_text_eq(r, go_name(d.tree@, i as int, k)),
{
    match k {
        NodeKind::Import => d.trimmed_text(i),
        NodeKind::Module => match d.field_child(i, "name") {
            Some(c) => d.text(c),
            None => match d.child_of_kind(i, "package_identifier") {
                Some(c) => d.text(c),
                None => None,
            },
        },
        _ => d.field_text(i, "name"),
    }
}

fn visit(d: &Document, path: &str, i: usize, out: &mut Vec<Node>)
    requires
        d.wf(),
        i < d.tree@.nodes.len(),
    ensures
        node_values(final(out)@) == node_values(old(out)@) + go_defs(d.tree@, path@, i as int),
    decreases d.tree@.nodes.len() - i,
{
    let ghost t = d.tree@;
    let ghost start = node_values(out@);
    match kind_at(d, i) {
        Some(k) => match name_at(d, i, k) {
            Some(n) => {
                let e = d.entity(i, n, k, Language::Go, path);
                proof {
                    lemma_node_values_push(out@, e);
                }
                out.push(e);
            },
            None => {},
        },
        None => {},
    }
    let ghost mid = node_values(out@);
    assert(mid == start + go_entity(t, path@, i as int));
    let cs = &d.kids[i];
    proof {
        lemma_kids_bounds(t, i as int);
    }
    let mut m: usize = 0;
    assert(cs@.subrange(0, 0) =~= Seq::<usize>::empty());
    while m < cs.len()
        invariant
            d.wf(),
            t == d.tree@,
            i < t.nodes.len(),
            cs@ == kids(t, i as int),
            forall|x: int| 0 <= x < cs@.len() ==> i < #[trigger] cs@[x] < t.nodes.len(),
            m <= cs@.len(),
            node_values(out@) == mid + go_defs_list(t, path@, i as int, cs@.subrange(0, m as int)),
        decreases cs@.len() - m,
    {
        let c = cs[m];
        let ghost before = node_values(out@);
        visit(d, path, c, out);
        assert(cs@.subrange(0, m + 1).drop_last() =~= cs@.subrange(0, m as int));
        assert(go_defs_list(t, path@, i as int, cs@.subrange(0, m + 1)) == go_defs_list(
            t,
            path@,
            i as int,
            cs@.subrange(0, m as int),
        ) + go_defs(t, path@, c as int));
        assert(node_values(out@) =~= mid + go_defs_list(
            t,
            path@,
            i as int,
            cs@.subrange(0, m + 1),
        ));
        m = m + 1;
    }
    assert(cs@.subrange(0, cs@.len() as int) =~= cs@);
    assert(node_values(out@) =~= start + go_defs(t, path@, i as int));
}

/// The Go entities of a syntax tree, in document order.
pub fn definitions(d: &Document, path: &str) -> (r: Vec<Node>)
    requires
        d.wf(),
    ensures
        node_values(r@) == if d.tree@.nodes.len() > 0 {
            go_defs(d.tree@, path@, 0)
        } else {
            seq![]
        },
{
    let mut out: Vec<Node> = Vec::new();
    if d.tree.nodes.len() > 0 {
        visit(d, path, 0, &mut out);
        assert(node_values(Seq::<Node>::empty()) =~= Seq::<NodeValue>::empty());
        assert(node_values(out@) =~= go_defs(d.tree@, path@, 0));
    } else {
        assert(node_values(out@) =~= Seq::<NodeValue>::empty());
    }
    out
}

proof fn lemma_go_defs_entities(t: TreeView, path: Seq<char>, i: int)
    ensures
        all_entities_of(go_defs(t, path, i), t, Language::Go, path),
    decreases t.nodes.len() - i, kids(t, i).len() + 1,
{
    if 0 <= i < t.nodes.len() {
        lemma_go_defs_list_entities(t, path, i, kids(t, i));
        lemma_entities_add(go_entity(t, path, i), go_defs_list(t, path, i, kids(t, i)), t, Language::Go, path);
    }
}

proof fn lemma_go_defs_list_entities(t: TreeView, path: Seq<char>, p: int, cs: Seq<usize>)
    ensures
        all_entities_of(go_defs_list(t, path, p, cs), t, Language::Go, path),
    decreases t.nodes.len() - p, cs.len(),
{
    if cs.len() > 0 {
        lemma_go_defs_list_entities(t, path, p, cs.drop_last());
        if p < cs.last() < t.nodes.len() {
            lemma_go_defs_entities(t, path, cs.last() as int);
            lemma_entities_add(go_defs_list(t, path, p, cs.drop_last()), go_defs(t, path, cs.last() as int), t, Language::Go, path);
        } else {
            lemma_entities_add(go_defs_list(t, path, p, cs.drop_last()), seq![], t, Language::Go, path);
        }
    }
}

/// Every entity the Go extractor finds belongs to the file at `path`, is
/// tagged Go, is unsaved, and is not a file node.
pub proof fn lemma_go_entities_of_file(t: TreeView, path: Seq<char>)
    ensures
        all_entities_of(go_entities(t, path), t, Language::Go, path),
{
    if t.nodes.len() > 0 {
        lemma_go_defs_entities(t, path, 0);
    }
}

/// The Go entity-kind table: a function declaration declares a function, a
/// method declaration a method, a type spec a struct, an interface or
/// (otherwise) a type alias by its type, an import declaration an import,
/// a const spec a constant, and the package clause a module; the grouping
/// `type`, `const` and `var` declarations declare nothing themselves.
pub proof fn lemma_go_kind_table(t: TreeView, i: int)
    ensures
        kind_of(t, i) == "function_declaration"@ ==> go_kind(t, i) == Some(NodeKind::Function),
        kind_of(t, i) == "method_declaration"@ ==> go_kind(t, i) == Some(NodeKind::Method),
        kind_of(t, i) == "import_declaration"@ ==> go_kind(t, i) == Some(NodeKind::Import),
        kind_of(t, i) == "const_spec"@ ==> go_kind(t, i) == Some(NodeKind::Constant),
        kind_of(t, i) == "package_clause"@ ==> go_kind(t, i) == Some(NodeKind::Module),
        kind_of(t, i) == "type_declaration"@ ==> go_kind(t, i) is None,
        kind_of(t, i) == "const_declaration"@ ==> go_kind(t, i) is None,
        kind_of(t, i) == "var_declaration"@ ==> go_kind(t, i) is None,
        kind_of(t, i) == "type_spec"@ ==> (field_child(t, i, "type"@) matches Some(c) ==> go_kind(t, i) == Some(if kind_of(t, c as int) == "struct_type"@ { NodeKind::Struct } else if kind_of(t, c as int) == "interface_type"@ { NodeKind::Interface } else { NodeKind::TypeAlias })),
{
    reveal_strlit("function_declaration");
    reveal_strlit("method_declaration");
    reveal_strlit("type_spec");
    reveal_strlit("type");
    reveal_strlit("struct_type");
    reveal_strlit("interface_type");
    reveal_strlit("import_declaration");
    reveal_strlit("const_spec");
    reveal_strlit("package_clause");
    reveal_strlit("type_declaration");
    reveal_strlit("const_declaration");
    reveal_strlit("var_declaration");
    assert("function_declaration"@ != "method_declaration"@) by { assert("function_declaration"@.len() != "method_declaration"@.len()); }
    assert("function_declaration"@ != "type_spec"@) by { assert("function_declaration"@.len() != "type_spec"@.len()); }
    assert("function_declaration"@ != "type"@) by { assert("function_declaration"@.len() != "type"@.len()); }
    assert("function_declaration"@ != "struct_type"@) by { assert("function_declaration"@.len() != "struct_type"@.len()); }
    assert("function_declaration"@ != "interface_type"@) by { assert("function_declaration"@.len() != "interface_type"@.len()); }
    assert("function_declaration"@ != "import_declaration"@) by { assert("function_declaration"@.len() != "import_declaration"@.len()); }
    assert("function_declaration"@ != "const_spec"@) by { assert("function_declaration"@.len() != "const_spec"@.len()); }
    assert("function_declaration"@ != "package_clause"@) by { assert("function_declaration"@.len() != "package_clause"@.len()); }
    assert("function_declaration"@ != "type_declaration"@) by { assert("function_declaration"@.len() != "type_declaration"@.len()); }
    assert("function_declaration"@ != "const_declaration"@) by { assert("function_declaration"@.len() != "const_declaration"@.len()); }
    assert("function_declaration"@ != "var_declaration"@) by { assert("function_declaration"@.len() != "var_declaration"@.len()); }
    assert("method_declaration"@ != "type_spec"@) by { assert("method_declaration"@.len() != "type_spec"@.len()); }
    assert("method_declaration"@ != "type"@) by { assert("method_declaration"@.len() != "type"@.len()); }
    assert("method_declaration"@ != "struct_type"@) by { assert("method_declaration"@.len() != "struct_type"@.len()); }
    assert("method_declaration"@ != "interface_type"@) by { assert("method_declaration"@.len() != "interface_type"@.len()); }
    assert("method_declaration"@ != "import_declaration"@) by { assert("method_declaration"@[0] != "import_declaration"@[0]); }
    assert("method_declaration"@ != "const_spec"@) by { assert("method_declaration"@.len() != "const_spec"@.len()); }
    assert("method_declaration"@ != "package_clause"@) by { assert("method_declaration"@.len() != "package_clause"@.len()); }
    assert("method_declaration"@ != "type_declaration"@) by { assert("method_declaration"@.len() != "type_declaration"@.len()); }
    assert("method_declaration"@ != "const_declaration"@) by { assert("method_declaration"@.len() != "const_declaration"@.len()); }
    assert("method_declaration"@ != "var_declaration"@) by { assert("method_declaration"@.len() != "var_declaration"@.len()); }
    assert("type_spec"@ != "type"@) by { assert("type_spec"@.len() != "type"@.len()); }
    assert("type_spec"@ != "struct_type"@) by { assert("type_spec"@.len() != "struct_type"@.len()); }
    assert("type_spec"@ != "interface_type"@) by { assert("type_spec"@.len() != "interface_type"@.len()); }
    assert("type_spec"@ != "import_declaration"@) by { assert("type_spec"@.len() != "import_declaration"@.len()); }
    assert("type_spec"@ != "const_spec"@) by { assert("type_spec"@.len() != "const_spec"@.len()); }
    assert("type_spec"@ != "package_clause"@) by { assert("type_spec"@.len() != "package_clause"@.len()); }
    assert("type_spec"@ != "type_declaration"@) by { assert("type_spec"@.len() != "type_declaration"@.len()); }
    assert("type_spec"@ != "const_declaration"@) by { assert("type_spec"@.len() != "const_declaration"@.len()); }
    assert("type_spec"@ != "var_declaration"@) by { assert("type_spec"@.len() != "var_declaration"@.len()); }
    assert("type"@ != "struct_type"@) by { assert("type"@.len() != "struct_type"@.len()); }
    assert("type"@ != "interface_type"@) by { assert("type"@.len() != "interface_type"@.len()); }
    assert("type"@ != "import_declaration"@) by { assert("type"@.len() != "import_declaration"@.len()); }
    assert("type"@ != "const_spec"@) by { assert("type"@.len() != "const_spec"@.len()); }
    assert("type"@ != "package_clause"@) by { assert("type"@.len() != "package_clause"@.len()); }
    assert("type"@ != "type_declaration"@) by { assert("type"@.len() != "type_declaration"@.len()); }
    assert("type"@ != "const_declaration"@) by { assert("type"@.len() != "const_declaration"@.len()); }
    assert("type"@ != "var_declaration"@) by { assert("type"@.len() != "var_declaration"@.len()); }
    assert("struct_type"@ != "interface_type"@) by { assert("struct_type"@.len() != "interface_type"@.len()); }
    assert("struct_type"@ != "import_declaration"@) by { assert("struct_type"@.len() != "import_declaration"@.len()); }
    assert("struct_type"@ != "const_spec"@) by { assert("struct_type"@.len() != "const_spec"@.len()); }
    assert("struct_type"@ != "package_clause"@) by { assert("struct_type"@.len() != "package_clause"@.len()); }
    assert("struct_type"@ != "type_declaration"@) by { assert("struct_type"@.len() != "type_declaration"@.len()); }
    assert("struct_type"@ != "const_declaration"@) by { assert("struct_type"@.len() != "const_declaration"@.len()); }
    assert("struct_type"@ != "var_declaration"@) by { assert("struct_type"@.len() != "var_declaration"@.len()); }
    assert("interface_type"@ != "import_declaration"@) by { assert("interface_type"@.len() != "import_declaration"@.len()); }
    assert("interface_type"@ != "const_spec"@) by { assert("interface_type"@.len() != "const_spec"@.len()); }
    assert("interface_type"@ != "package_clause"@) by { assert("interface_type"@[0] != "package_clause"@[0]); }
    assert("interface_type"@ != "type_declaration"@) by { assert("interface_type"@.len() != "type_declaration"@.len()); }
    assert("interface_type"@ != "const_declaration"@) by { assert("interface_type"@.len() != "const_declaration"@.len()); }
    assert("interface_type"@ != "var_declaration"@) by { assert("interface_type"@.len() != "var_declaration"@.len()); }
    assert("import_declaration"@ != "const_spec"@) by { assert("import_declaration"@.len() != "const_spec"@.len()); }
    assert("import_declaration"@ != "package_clause"@) by { assert("import_declaration"@.len() != "package_clause"@.len()); }
    assert("import_declaration"@ != "type_declaration"@) by { assert("import_declaration"@.len() != "type_declaration"@.len()); }
    assert("import_declaration"@ != "const_declaration"@) by { assert("import_declaration"@.len() != "const_declaration"@.len()); }
    assert("import_declaration"@ != "var_declaration"@) by { assert("import_declaration"@.len() != "var_declaration"@.len()); }
    assert("const_spec"@ != "package_clause"@) by { assert("const_spec"@.len() != "package_clause"@.len()); }
    assert("const_spec"@ != "type_declaration"@) by { assert("const_spec"@.len() != "type_declaration"@.len()); }
    assert("const_spec"@ != "const_declaration"@) by { assert("const_spec"@.len() != "const_declaration"@.len()); }
    assert("const_spec"@ != "var_declaration"@) by { assert("const_spec"@.len() != "var_declaration"@.len()); }
    assert("package_clause"@ != "type_declaration"@) by { assert("package_clause"@.len() != "type_declaration"@.len()); }
    assert("package_clause"@ != "const_declaration"@) by { assert("package_clause"@.len() != "const_declaration"@.len()); }
    assert("package_clause"@ != "var_declaration"@) by { assert("package_clause"@.len() != "var_declaration"@.len()); }
    assert("type_declaration"@ != "const_declaration"@) by { assert("type_declaration"@.len() != "const_declaration"@.len()); }
    assert("type_declaration"@ != "var_declaration"@) by { assert("type_declaration"@.len() != "var_declaration"@.len()); }
    assert("const_declaration"@ != "var_declaration"@) by { assert("const_declaration"@.len() != "var_declaration"@.len()); }
}

/// The Go entities of a whole syntax tree.
pub open spec fn go_entities(t: TreeView, path: Seq<char>) -> Seq<NodeValue> {
    if t.nodes.len() > 0 {
        go_defs(t, path, 0)
    } else {
        seq![]
    }
}

/// Builds the parse of `content` at `path` from its Go syntax tree: the file
/// node, the entities in document order, and a `Contains` edge from the file
/// node to each entity.
pub fn parse_tree(path: &str, content: &str, tree: SyntaxTree) -> (r: ParseResult)
    ensures
        parse_value(r, path@, content@, Language::Go, go_entities(tree@, path@)),
{
    let d = Document::new(tree);
    let defs = definitions(&d, path);
    assemble(path, content, Language::Go, defs)
}

/// Parses a Go source file: the file node, its entities and the `Contains`
/// edges from the file node to each entity. Fails only when the
/// tree-sitter grammar cannot be loaded; any text, malformed or not, parses.
pub fn parse_with_edges(path: &str, content: &str) -> (r: Result<ParseResult, DeagleError>)
    ensures
        match syntax_view(Grammar::Go, content@) {
            Some(t) => r matches Ok(p) && parse_value(p, path@, content@, Language::Go, go_entities(t, path@)),
            None => r matches Err(e) && parse_failure(e, path@, Grammar::Go),
        },
        syntax_view(Grammar::Go, content@) matches Some(t) ==> (encode_utf8(content@).len() < u32::MAX
            ==> tree_rows_in_order(t)),
{
    match syntax_tree(Grammar::Go, content) {
        Ok(tree) => Ok(parse_tree(path, content, tree)),
        Err(m) => Err(parse_error(path, m)),
    }
}

/// Parses a Go source file into its nodes (the file node first).
pub fn parse(path: &str, content: &str) -> (r: Result<Vec<Node>, DeagleError>)
    ensures
        match syntax_view(Grammar::Go, content@) {
            Some(t) => r matches Ok(v) && node_values(v@) == seq![file_entity(path@, content@, Language::Go)] + go_entities(t, path@),
            None => r matches Err(e) && parse_failure(e, path@, Grammar::Go),
        },
        syntax_view(Grammar::Go, content@) matches Some(t) ==> (encode_utf8(content@).len() < u32::MAX
            ==> tree_rows_in_order(t)),
{
    match parse_with_edges(path, content) {
        Ok(p) => Ok(p.nodes),
        Err(e) => Err(e),
    }
}
} // verus!
