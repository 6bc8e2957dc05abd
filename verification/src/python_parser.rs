//! Python: functions, methods (functions inside a class body), classes,
//! imports, and module-level constants (assignments to UPPER_CASE names).
use vstd::prelude::*;
use crate::extract::{all_entities_of, lemma_entities_add, assemble, entity_at, field_text, file_entity, parse_error, parse_failure, parse_value, trimmed_text};
use crate::model::{DeagleError, Language, Node, NodeKind, NodeValue, ParseResult, node_values, lemma_node_values_push};
use crate::grammar::{Grammar, syntax_tree, syntax_view, tree_rows_in_order};
use vstd::utf8::encode_utf8;
use crate::syntax::{Document, SyntaxTree, TreeView, field_child, is_kind, kids, kind_of, lemma_kids_bounds, opt_text_eq, text_of};
use crate::text::{constant_name, is_constant_name};

verus! {

/// The kind of entity node `i` declares, if any; a function directly in a
/// class body is a method.
pub open spec fn py_kind(t: TreeView, i: int, inside_class: bool) -> Option<NodeKind> {
    let k = kind_of(t, i);
    if k == "function_definition"@ {
        Some(if inside_class { NodeKind::Method } else { NodeKind::Function })
    } else if k == "class_definition"@ {
        Some(NodeKind::Class)
    } else if k == "import_statement"@ || k == "import_from_statement"@ {
        Some(NodeKind::Import)
    } else {
        None
    }
}

/// The name of the entity of kind `k` at node `i`: an import is named by
/// its whole text, anything else by its `name` field.
pub open spec fn py_name(t: TreeView, i: int, k: NodeKind) -> Option<Seq<char>> {
    if k == NodeKind::Import {
        trimmed_text(t, i)
    } else {
        field_text(t, i, "name"@)
    }
}

/// The named entity of kind `k` at node `i`.
pub open spec fn py_named(t: TreeView, path: Seq<char>, i: int, k: NodeKind) -> Seq<NodeValue> {
    match py_name(t, i, k) {
        Some(n) => seq![entity_at(t, i, n, k, Language::Python, path)],
        None => seq![],
    }
}

/// The name an assignment binds, when its left side is a plain identifier.
pub open spec fn assigned_name(t: TreeView, a: int) -> Option<Seq<char>> {
    match field_child(t, a, "left"@) {
        Some(l) => if is_kind(t, l as int, "identifier"@) {
            text_of(t, l as int)
        } else {
            None
        },
        None => None,
    }
}

/// The constant a statement `i` outside classes defines: an expression
/// statement whose first child assigns to an UPPER_CASE name.
pub open spec fn py_constant(t: TreeView, path: Seq<char>, i: int, inside_class: bool) -> Seq<
    NodeValue,
> {
    if is_kind(t, i, "expression_statement"@) && !inside_class && kids(t, i).len() > 0 {
        let a = kids(t, i)[0] as int;
        if a < t.nodes.len() && is_kind(t, a, "assignment"@) {
            match assigned_name(t, a) {
                Some(n) => if is_constant_name(n) {
                    seq![entity_at(t, i, n, NodeKind::Constant, Language::Python, path)]
                } else {
                    seq![]
                },
                None => seq![],
            }
        } else {
            seq![]
        }
    } else {
        seq![]
    }
}

/// Entities found in the subtree of node `i`, in document order. A class
/// is followed by the entities of its body, where functions are methods;
/// its other children are not entered.
pub open spec fn py_defs(t: TreeView, path: Seq<char>, i: int, inside_class: bool) -> Seq<
    NodeValue,
>
    decreases t.nodes.len() - i, kids(t, i).len() + 1,
{
    if 0 <= i < t.nodes.len() {
        match py_kind(t, i, inside_class) {
            Some(k) => py_named(t, path, i, k) + if k == NodeKind::Class {
                match field_child(t, i, "body"@) {
                    Some(b) => if i < b < t.nodes.len() {
                        py_defs_list(t, path, b as int, kids(t, b as int), true)
                    } else {
                        seq![]
                    },
                    None => seq![],
                }
            } else {
                py_defs_list(t, path, i, kids(t, i), inside_class)
            },
            None => py_constant(t, path, i, inside_class) + py_defs_list(
                t,
                path,
                i,
                kids(t, i),
                inside_class,
            ),
        }
    } else {
        seq![]
    }
}

/// Entities found in the subtrees of the children `cs` of node `p`.
pub open spec fn py_defs_list(
    t: TreeView,
    path: Seq<char>,
    p: int,
    cs: Seq<usize>,
    inside_class: bool,
) -> Seq<NodeValue>
    decreases t.nodes.len() - p, cs.len(),
{
    if cs.len() == 0 {
        seq![]
    } else {
        py_defs_list(t, path, p, cs.drop_last(), inside_class) + if p < cs.last()
            < t.nodes.len() {
            py_defs(t, path, cs.last() as int, inside_class)
        } else {
            seq![]
        }
    }
}

proof fn lemma_py_defs_entities(t: TreeView, path: Seq<char>, i: int, inside_class: bool)
    ensures
        all_entities_of(py_defs(t, path, i, inside_class), t, Language::Python, path),
    decreases t.nodes.len() - i, kids(t, i).len() + 1,
{
    if 0 <= i < t.nodes.len() {
        match py_kind(t, i, inside_class) {
            Some(k) => {
                let rest = if k == NodeKind::Class {
                    match field_child(t, i, "body"@) {
                        Some(b) => if i < b < t.nodes.len() {
                            lemma_py_defs_list_entities(t, path, b as int, kids(t, b as int), true);
                            py_defs_list(t, path, b as int, kids(t, b as int), true)
                        } else {
                            seq![]
                        },
                        None => seq![],
                    }
                } else {
                    lemma_py_defs_list_entities(t, path, i, kids(t, i), inside_class);
                    py_defs_list(t, path, i, kids(t, i), inside_class)
                };
                lemma_entities_add(py_named(t, path, i, k), rest, t, Language::Python, path);
            },
            None => {
                lemma_py_defs_list_entities(t, path, i, kids(t, i), inside_class);
                lemma_entities_add(
                    py_constant(t, path, i, inside_class),
                    py_defs_list(t, path, i, kids(t, i), inside_class),
                    t,
                    Language::Python,
                    path,
                );
            },
        }
    }
}

proof fn lemma_py_defs_list_entities(
    t: TreeView,
    path: Seq<char>,
    p: int,
    cs: Seq<usize>,
    inside_class: bool,
)
    ensures
        all_entities_of(py_defs_list(t, path, p, cs, inside_class), t, Language::Python, path),
    decreases t.nodes.len() - p, cs.len(),
{
    if cs.len() > 0 {
        let front = py_defs_list(t, path, p, cs.drop_last(), inside_class);
        lemma_py_defs_list_entities(t, path, p, cs.drop_last(), inside_class);
        if p < cs.last() < t.nodes.len() {
            lemma_py_defs_entities(t, path, cs.last() as int, inside_class);
            lemma_entities_add(front, py_defs(t, path, cs.last() as int, inside_class), t, Language::Python, path);
        } else {
            lemma_entities_add(front, seq![], t, Language::Python, path);
        }
    }
}

/// Every entity the Python extractor finds belongs to the file at `path`,
/// is tagged Python, is unsaved, and is not a file node.
pub proof fn lemma_python_entities_of_file(t: TreeView, path: Seq<char>)
    ensures
        all_entities_of(python_entities(t, path), t, Language::Python, path),
{
    if t.nodes.len() > 0 {
        lemma_py_defs_entities(t, path, 0, false);
    }
}

/// The Python entity-kind table: a function definition declares a
/// function, or a method directly in a class body; a class definition a
/// class; `import` and `from ... import` statements an import; other
/// statements no entity of their own (constants come from assignments).
pub proof fn lemma_python_kind_table(t: TreeView, i: int, c: bool)
    ensures
        kind_of(t, i) == "function_definition"@ ==> py_kind(t, i, false) == Some(NodeKind::Function) && py_kind(t, i, true) == Some(NodeKind::Method),
        kind_of(t, i) == "class_definition"@ ==> py_kind(t, i, c) == Some(NodeKind::Class),
        kind_of(t, i) == "import_statement"@ ==> py_kind(t, i, c) == Some(NodeKind::Import),
        kind_of(t, i) == "import_from_statement"@ ==> py_kind(t, i, c) == Some(NodeKind::Import),
        kind_of(t, i) == "global_statement"@ ==> py_kind(t, i, c) is None,
        kind_of(t, i) == "expression_statement"@ ==> py_kind(t, i, c) is None,
{
    reveal_strlit("function_definition");
    reveal_strlit("class_definition");
    reveal_strlit("import_statement");
    reveal_strlit("import_from_statement");
    reveal_strlit("global_statement");
    reveal_strlit("expression_statement");
    assert("function_definition"@ != "class_definition"@) by { assert("function_definition"@.len() != "class_definition"@.len()); }
    assert("function_definition"@ != "import_statement"@) by { assert("function_definition"@.len() != "import_statement"@.len()); }
    assert("function_definition"@ != "import_from_statement"@) by { assert("function_definition"@.len() != "import_from_statement"@.len()); }
    assert("function_definition"@ != "global_statement"@) by { assert("function_definition"@.len() != "global_statement"@.len()); }
    assert("function_definition"@ != "expression_statement"@) by { assert("function_definition"@.len() != "expression_statement"@.len()); }
    assert("class_definition"@ != "import_statement"@) by { assert("class_definition"@[0] != "import_statement"@[0]); }
    assert("class_definition"@ != "import_from_statement"@) by { assert("class_definition"@.len() != "import_from_statement"@.len()); }
    assert("class_definition"@ != "global_statement"@) by { assert("class_definition"@[0] != "global_statement"@[0]); }
    assert("class_definition"@ != "expression_statement"@) by { assert("class_definition"@.len() != "expression_statement"@.len()); }
    assert("import_statement"@ != "import_from_statement"@) by { assert("import_statement"@.len() != "import_from_statement"@.len()); }
    assert("import_statement"@ != "global_statement"@) by { assert("import_statement"@[0] != "global_statement"@[0]); }
    assert("import_statement"@ != "expression_statement"@) by { assert("import_statement"@.len() != "expression_statement"@.len()); }
    assert("import_from_statement"@ != "global_statement"@) by { assert("import_from_statement"@.len() != "global_statement"@.len()); }
    assert("import_from_statement"@ != "expression_statement"@) by { assert("import_from_statement"@.len() != "expression_statement"@.len()); }
    assert("global_statement"@ != "expression_statement"@) by { assert("global_statement"@.len() != "expression_statement"@.len()); }
}

/// The Python entities of a whole syntax tree.
pub open spec fn python_entities(t: TreeView, path: Seq<char>) -> Seq<NodeValue> {
    if t.nodes.len() > 0 {
        py_defs(t, path, 0, false)
    } else {
        seq![]
    }
}

fn push(out: &mut Vec<Node>, e: Node)
    ensures
        node_values(final(out)@) == node_values(old(out)@).push(e@),
{
    proof {
        lemma_node_values_push(out@, e);
    }
    out.push(e);
}

fn kind_at(d: &Document, i: usize, inside_class: bool) -> (r: Option<NodeKind>)
    requires
        i < d.tree@.nodes.len(),
    ensures
        r == py_kind(d.tree@, i as int, inside_class),
{
    if d.kind_is(i, "function_definition") {
        Some(
            if inside_class {
                NodeKind::Method
            } else {
                NodeKind::Function
            },
        )
    } else if d.kind_is(i, "class_definition") {
        Some(NodeKind::Class)
    } else if d.kind_is(i, "import_statement") || d.kind_is(i, "import_from_statement") {
        Some(NodeKind::Import)
    } else {
        None
    }
}

fn push_named(d: &Document, path: &str, i: usize, k: NodeKind, out: &mut Vec<Node>)
    requires
        d.wf(),
        i < d.tree@.nodes.len(),
    ensures
        node_values(final(out)@) == node_values(old(out)@) + py_named(d.tree@, path@, i as int, k),
{
    let ghost start = node_values(out@);
    let name = if k == NodeKind::Import {
        d.trimmed_text(i)
    } else {
        d.field_text(i, "name")
    };
    match name {
        Some(n) => push(out, d.entity(i, n, k, Language::Python, path)),
        None => {},
    }
    assert(node_values(out@) =~= start + py_named(d.tree@, path@, i as int, k));
}

fn push_constant(d: &Document, path: &str, i: usize, inside_class: bool, out: &mut Vec<Node>)
    requires
        d.wf(),
        i < d.tree@.nodes.len(),
    ensures
        node_values(final(out)@) == node_values(old(out)@) + py_constant(
            d.tree@,
            path@,
            i as int,
            inside_class,
        ),
{
    let ghost t = d.tree@;
    let ghost start = node_values(out@);
    proof {
        lemma_kids_bounds(t, i as int);
    }
    if d.kind_is(i, "expression_statement") && !inside_class && d.kids[i].len() > 0 {
        let a = d.kids[i][0];
        if d.kind_is(a, "assignment") {
            let name = match d.field_child(a, "left") {
                Some(l) => if d.kind_is(l, "identifier") {
                    d.text(l)
                } else {
                    None
                },
                None => None,
            };
            match name {
                Some(n) => if constant_name(n.as_str()) {
                    push(out, d.entity(i, n, NodeKind::Constant, Language::Python, path));
                },
                None => {},
            }
        }
    }
    assert(node_values(out@) =~= start + py_constant(t, path@, i as int, inside_class));
}

fn visit(d: &Document, path: &str, i: usize, inside_class: bool, out: &mut Vec<Node>)
    requires
        d.wf(),
        i < d.tree@.nodes.len(),
    ensures
        node_values(final(out)@) == node_values(old(out)@) + py_defs(
            d.tree@,
            path@,
            i as int,
            inside_class,
        ),
    decreases d.tree@.nodes.len() - i, 1nat,
{
    let ghost t = d.tree@;
    let ghost start = node_values(out@);
    match kind_at(d, i, inside_class) {
        Some(k) => {
            push_named(d, path, i, k, out);
            if k == NodeKind::Class {
                match d.field_child(i, "body") {
                    Some(b) => visit_children(d, path, b, true, out),
                    None => {},
                }
            } else {
                visit_children(d, path, i, inside_class, out);
            }
        },
        None => {
            push_constant(d, path, i, inside_class, out);
            visit_children(d, path, i, inside_class, out);
        },
    }
    assert(node_values(out@) =~= start + py_defs(t, path@, i as int, inside_class));
}

fn visit_children(d: &Document, path: &str, i: usize, inside_class: bool, out: &mut Vec<Node>)
    requires
        d.wf(),
        i < d.tree@.nodes.len(),
    ensures
        node_values(final(out)@) == node_values(old(out)@) + py_defs_list(
            d.tree@,
            path@,
            i as int,
            kids(d.tree@, i as int),
            inside_class,
        ),
    decreases d.tree@.nodes.len() - i, 0nat,
{
    let ghost t = d.tree@;
    let ghost mid = node_values(out@);
    let cs = &d.kids[i];
    proof {
        lemma_kids_bounds(t, i as int);
    }
    let mut m: usize = 0;
    assert(cs@.subrange(0, 0) =~= Seq::<usize>::empty());
    while m < cs.len()
        invariant
            d.wf(),
            t == d.tree@,
            i < t.nodes.len(),
            cs@ == kids(t, i as int),
            forall|x: int| 0 <= x < cs@.len() ==> i < #[trigger] cs@[x] < t.nodes.len(),
            m <= cs@.len(),
            node_values(out@) == mid + py_defs_list(
                t,
                path@,
                i as int,
                cs@.subrange(0, m as int),
                inside_class,
            ),
        decreases cs@.len() - m,
    {
        let c = cs[m];
        visit(d, path, c, inside_class, out);
        assert(cs@.subrange(0, m + 1).drop_last() =~= cs@.subrange(0, m as int));
        assert(node_values(out@) =~= mid + py_defs_list(
            t,
            path@,
            i as int,
            cs@.subrange(0, m + 1),
            inside_class,
        ));
        m = m + 1;
    }
    assert(cs@.subrange(0, cs@.len() as int) =~= cs@);
}

/// The Python entities of a syntax tree, in document order.
pub fn definitions(d: &Document, path: &str) -> (r: Vec<Node>)
    requires
        d.wf(),
    ensures
        node_values(r@) == python_entities(d.tree@, path@),
{
    let mut out: Vec<Node> = Vec::new();
    assert(node_values(out@) =~= Seq::<NodeValue>::empty());
    if d.tree.nodes.len() > 0 {
        visit(d, path, 0, false, &mut out);
        assert(node_values(out@) =~= py_defs(d.tree@, path@, 0, false));
    }
    out
}

/// Builds the parse of `content` at `path` from its Python syntax tree: the
/// file node, the entities in document order, and a `Contains` edge from the
/// file node to each entity.
pub fn parse_tree(path: &str, content: &str, tree: SyntaxTree) -> (r: ParseResult)
    ensures
        parse_value(r, path@, content@, Language::Python, python_entities(tree@, path@)),
{
    let d = Document::new(tree);
    let defs = definitions(&d, path);
    assemble(path, content, Language::Python, defs)
}

/// Parses a Python source file: the file node, its entities and the
/// `Contains` edges from the file node to each entity. Fails only when
/// the tree-sitter grammar cannot be loaded; any text, malformed or not, parses.
pub fn parse_with_edges(path: &str, content: &str) -> (r: Result<ParseResult, DeagleError>)
    ensures
        match syntax_view(Grammar::Python, content@) {
            Some(t) => r matches Ok(p) && parse_value(p, path@, content@, Language::Python, python_entities(t, path@)),
            None => r matches Err(e) && parse_failure(e, path@, Grammar::Python),
        },
        syntax_view(Grammar::Python, content@) matches Some(t) ==> (encode_utf8(content@).len() < u32::MAX
            ==> tree_rows_in_order(t)),
{
    match syntax_tree(Grammar::Python, content) {
        Ok(tree) => Ok(parse_tree(path, content, tree)),
        Err(m) => Err(parse_error(path, m)),
    }
}

/// Parses a Python source file into its nodes (the file node first).
pub fn parse(path: &str, content: &str) -> (r: Result<Vec<Node>, DeagleError>)
    ensures
        match syntax_view(Grammar::Python, content@) {
            Some(t) => r matches Ok(v) && node_values(v@) == seq![file_entity(path@, content@, Language::Python)] + python_entities(t, path@),
            None => r matches Err(e) && parse_failure(e, path@, Grammar::Python),
        },
        syntax_view(Grammar::Python, content@) matches Some(t) ==> (encode_utf8(content@).len() < u32::MAX
            ==> tree_rows_in_order(t)),
{
    match parse_with_edges(path, content) {
        Ok(p) => Ok(p.nodes),
        Err(e) => Err(e),
    }
}

} // verus!
