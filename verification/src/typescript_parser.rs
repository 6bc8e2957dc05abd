//! TypeScript and JavaScript (read with the TSX grammar): functions, arrow
//! functions bound by `const`/`let`/`var`, methods, classes, interfaces,
//! type aliases, enums, imports and UPPER_CASE constants.
use vstd::prelude::*;
use crate::extract::{all_entities_of, lemma_entities_add, assemble, entity_at, field_text, file_entity, parse_error, parse_failure, parse_value, trimmed_text};
use crate::model::{DeagleError, Language, Node, NodeKind, NodeValue, ParseResult, node_values, lemma_node_values_push};
use crate::grammar::{Grammar, syntax_tree, syntax_view, tree_rows_in_order};
use vstd::utf8::encode_utf8;
use crate::syntax::{Document, SyntaxTree, TreeView, field_child, is_kind, kids, kind_of, lemma_kids_bounds, opt_text_eq, text_of};
use crate::text::{constant_name, is_constant_name};

verus! {

/// The kind of entity node `i` declares, if any.
pub open spec fn ts_kind(t: TreeView, i: int) -> Option<NodeKind> {
    let k = kind_of(t, i);
    if k == "function_declaration"@ {
        Some(NodeKind::Function)
    } else if k == "method_definition"@ {
        Some(NodeKind::Method)
    } else if k == "class_declaration"@ {
        Some(NodeKind::Class)
    } else if k == "interface_declaration"@ {
        Some(NodeKind::Interface)
    } else if k == "type_alias_declaration"@ {
        Some(NodeKind::TypeAlias)
    } else if k == "enum_declaration"@ {
        Some(NodeKind::Enum)
    } else if k == "import_statement"@ {
        Some(NodeKind::Import)
    } else {
        None
    }
}

/// The name of the entity of kind `k` at node `i`: an import is named by
/// its whole text, anything else by its `name` field.
pub open spec fn ts_name(t: TreeView, i: int, k: NodeKind) -> Option<Seq<char>> {
    if k == NodeKind::Import {
        trimmed_text(t, i)
    } else {
        field_text(t, i, "name"@)
    }
}

/// Whether declarator `c` binds an arrow function.
pub open spec fn binds_arrow(t: TreeView, c: int) -> bool {
    match field_child(t, c, "value"@) {
        Some(v) => is_kind(t, v as int, "arrow_function"@),
        None => false,
    }
}

/// Entities the declarators `cs` of the `const`/`let`/`var` declaration `i`
/// yield, in order: a binding of an arrow function is a function, one to an
/// UPPER_CASE name a constant; the first other named binding ends the list.
/// Each entity spans the whole declaration.
pub open spec fn ts_bindings(t: TreeView, path: Seq<char>, i: int, cs: Seq<usize>) -> Seq<NodeValue>
    decreases cs.len(),
{
    if cs.len() == 0 {
        seq![]
    } else {
        let c = cs[0] as int;
        if c < t.nodes.len() && is_kind(t, c, "variable_declarator"@) && field_child(t, c, "name"@) is Some {
            let name = match field_text(t, c, "name"@) {
                Some(s) => s,
                None => Seq::empty(),
            };
            if binds_arrow(t, c) {
                seq![entity_at(t, i, name, NodeKind::Function, Language::TypeScript, path)] + ts_bindings(t, path, i, cs.drop_first())
            } else if is_constant_name(name) {
                seq![entity_at(t, i, name, NodeKind::Constant, Language::TypeScript, path)] + ts_bindings(t, path, i, cs.drop_first())
            } else {
                seq![]
            }
        } else {
            ts_bindings(t, path, i, cs.drop_first())
        }
    }
}

/// Entities a lexical declaration `i` outside a class body yields.
pub open spec fn ts_lexical(t: TreeView, path: Seq<char>, i: int, inside_class: bool) -> Seq<NodeValue> {
    if is_kind(t, i, "lexical_declaration"@) && !inside_class {
        ts_bindings(t, path, i, kids(t, i))
    } else {
        seq![]
    }
}

/// Entities in the children of node `i`, unless `i` declares a class.
pub open spec fn ts_rest(t: TreeView, path: Seq<char>, i: int, inside_class: bool) -> Seq<
    NodeValue,
>
    decreases t.nodes.len() - i, kids(t, i).len() + 1, 0int,
{
    if 0 <= i < t.nodes.len() && !is_kind(t, i, "class_declaration"@) {
        ts_defs_list(t, path, i, kids(t, i), inside_class)
    } else {
        seq![]
    }
}

/// Entities found in the subtree of node `i`, in document order. A named
/// class is followed by the entities of its body; its other children are
/// not entered.
pub open spec fn ts_defs(t: TreeView, path: Seq<char>, i: int, inside_class: bool) -> Seq<
    NodeValue,
>
    decreases t.nodes.len() - i, kids(t, i).len() + 1, 1int,
{
    if 0 <= i < t.nodes.len() {
        ts_lexical(t, path, i, inside_class) + match ts_kind(t, i) {
            Some(k) => match ts_name(t, i, k) {
                Some(n) => seq![entity_at(t, i, n, k, Language::TypeScript, path)] + if k
                    == NodeKind::Class {
                    match field_child(t, i, "body"@) {
                        Some(b) => if i < b < t.nodes.len() {
                            ts_defs_list(t, path, b as int, kids(t, b as int), true)
                        } else {
                            seq![]
                        },
                        None => seq![],
                    }
                } else {
                    ts_rest(t, path, i, inside_class)
                },
                None => ts_rest(t, path, i, inside_class),
            },
            None => ts_rest(t, path, i, inside_class),
        }
    } else {
        seq![]
    }
}

/// Entities found in the subtrees of the children `cs` of node `p`.
pub open spec fn ts_defs_list(
    t: TreeView,
    path: Seq<char>,
    p: int,
    cs: Seq<usize>,
    inside_class: bool,
) -> Seq<NodeValue>
    decreases t.nodes.len() - p, cs.len(), 2int,
{
    if cs.len() == 0 {
        seq![]
    } else {
        ts_defs_list(t, path, p, cs.drop_last(), inside_class) + if p < cs.last()
            < t.nodes.len() {
            ts_defs(t, path, cs.last() as int, inside_class)
        } else {
            seq![]
        }
    }
}

/// The TypeScript entity-kind table: function declarations declare
/// functions, method definitions methods, class, interface, type alias and
/// enum declarations their kinds, import statements imports; an export
/// statement or a `const`/`let` declaration declares nothing itself (its
/// contents do).
pub proof fn lemma_typescript_kind_table(t: TreeView, i: int)
    ensures
        kind_of(t, i) == "function_declaration"@ ==> ts_kind(t, i) == Some(NodeKind::Function),
        kind_of(t, i) == "method_definition"@ ==> ts_kind(t, i) == Some(NodeKind::Method),
        kind_of(t, i) == "class_declaration"@ ==> ts_kind(t, i) == Some(NodeKind::Class),
        kind_of(t, i) == "interface_declaration"@ ==> ts_kind(t, i) == Some(NodeKind::Interface),
        kind_of(t, i) == "type_alias_declaration"@ ==> ts_kind(t, i) == Some(NodeKind::TypeAlias),
        kind_of(t, i) == "enum_declaration"@ ==> ts_kind(t, i) == Some(NodeKind::Enum),
        kind_of(t, i) == "import_statement"@ ==> ts_kind(t, i) == Some(NodeKind::Import),
        kind_of(t, i) == "export_statement"@ ==> ts_kind(t, i) is None,
        kind_of(t, i) == "lexical_declaration"@ ==> ts_kind(t, i) is None,
{
    reveal_strlit("function_declaration");
    reveal_strlit("method_definition");
    reveal_strlit("class_declaration");
    reveal_strlit("interface_declaration");
    reveal_strlit("type_alias_declaration");
    reveal_strlit("enum_declaration");
    reveal_strlit("import_statement");
    reveal_strlit("export_statement");
    reveal_strlit("lexical_declaration");
    assert("function_declaration"@ != "method_definition"@) by { assert("function_declaration"@.len() != "method_definition"@.len()); }
    assert("function_declaration"@ != "class_declaration"@) by { assert("function_declaration"@.len() != "class_declaration"@.len()); }
    assert("function_declaration"@ != "interface_declaration"@) by { assert("function_declaration"@.len() != "interface_declaration"@.len()); }
    assert("function_declaration"@ != "type_alias_declaration"@) by { assert("function_declaration"@.len() != "type_alias_declaration"@.len()); }
    assert("function_declaration"@ != "enum_declaration"@) by { assert("function_declaration"@.len() != "enum_declaration"@.len()); }
    assert("function_declaration"@ != "import_statement"@) by { assert("function_declaration"@.len() != "import_statement"@.len()); }
    assert("function_declaration"@ != "export_statement"@) by { assert("function_declaration"@.len() != "export_statement"@.len()); }
    assert("function_declaration"@ != "lexical_declaration"@) by { assert("function_declaration"@.len() != "lexical_declaration"@.len()); }
    assert("method_definition"@ != "class_declaration"@) by { assert("method_definition"@[0] != "class_declaration"@[0]); }
    assert("method_definition"@ != "interface_declaration"@) by { assert("method_definition"@.len() != "interface_declaration"@.len()); }
    assert("method_definition"@ != "type_alias_declaration"@) by { assert("method_definition"@.len() != "type_alias_declaration"@.len()); }
    assert("method_definition"@ != "enum_declaration"@) by { assert("method_definition"@.len() != "enum_declaration"@.len()); }
    assert("method_definition"@ != "import_statement"@) by { assert("method_definition"@.len() != "import_statement"@.len()); }
    assert("method_definition"@ != "export_statement"@) by { assert("method_definition"@.len() != "export_statement"@.len()); }
    assert("method_definition"@ != "lexical_declaration"@) by { assert("method_definition"@.len() != "lexical_declaration"@.len()); }
    assert("class_declaration"@ != "interface_declaration"@) by { assert("class_declaration"@.len() != "interface_declaration"@.len()); }
    assert("class_declaration"@ != "type_alias_declaration"@) by { assert("class_declaration"@.len() != "type_alias_declaration"@.len()); }
    assert("class_declaration"@ != "enum_declaration"@) by { assert("class_declaration"@.len() != "enum_declaration"@.len()); }
    assert("class_declaration"@ != "import_statement"@) by { assert("class_declaration"@.len() != "import_statement"@.len()); }
    assert("class_declaration"@ != "export_statement"@) by { assert("class_declaration"@.len() != "export_statement"@.len()); }
    assert("class_declaration"@ != "lexical_declaration"@) by { assert("class_declaration"@.len() != "lexical_declaration"@.len()); }
    assert("interface_declaration"@ != "type_alias_declaration"@) by { assert("interface_declaration"@.len() != "type_alias_declaration"@.len()); }
    assert("interface_declaration"@ != "enum_declaration"@) by { assert("interface_declaration"@.len() != "enum_declaration"@.len()); }
    assert("interface_declaration"@ != "import_statement"@) by { assert("interface_declaration"@.len() != "import_statement"@.len()); }
    assert("interface_declaration"@ != "export_statement"@) by { assert("interface_declaration"@.len() != "export_statement"@.len()); }
    assert("interface_declaration"@ != "lexical_declaration"@) by { assert("interface_declaration"@.len() != "lexical_declaration"@.len()); }
    assert("type_alias_declaration"@ != "enum_declaration"@) by { assert("type_alias_declaration"@.len() != "enum_declaration"@.len()); }
    assert("type_alias_declaration"@ != "import_statement"@) by { assert("type_alias_declaration"@.len() != "import_statement"@.len()); }
    assert("type_alias_declaration"@ != "export_statement"@) by { assert("type_alias_declaration"@.len() != "export_statement"@.len()); }
    assert("type_alias_declaration"@ != "lexical_declaration"@) by { assert("type_alias_declaration"@.len() != "lexical_declaration"@.len()); }
    assert("enum_declaration"@ != "import_statement"@) by { assert("enum_declaration"@[0] != "import_statement"@[0]); }
    assert("enum_declaration"@ != "export_statement"@) by { assert("enum_declaration"@[1] != "export_statement"@[1]); }
    assert("enum_declaration"@ != "lexical_declaration"@) by { assert("enum_declaration"@.len() != "lexical_declaration"@.len()); }
    assert("import_statement"@ != "export_statement"@) by { assert("import_statement"@[0] != "export_statement"@[0]); }
    assert("import_statement"@ != "lexical_declaration"@) by { assert("import_statement"@.len() != "lexical_declaration"@.len()); }
    assert("export_statement"@ != "lexical_declaration"@) by { assert("export_statement"@.len() != "lexical_declaration"@.len()); }
}

/// The TypeScript entities of a whole syntax tree.
pub open spec fn typescript_entities(t: TreeView, path: Seq<char>) -> Seq<NodeValue> {
    if t.nodes.len() > 0 {
        ts_defs(t, path, 0, false)
    } else {
        seq![]
    }
}

proof fn lemma_ts_bindings_entities(t: TreeView, path: Seq<char>, i: int, cs: Seq<usize>)
    requires
        0 <= i < t.nodes.len(),
    ensures
        all_entities_of(ts_bindings(t, path, i, cs), t, Language::TypeScript, path),
    decreases cs.len(),
{
    if cs.len() > 0 {
        lemma_ts_bindings_entities(t, path, i, cs.drop_first());
        let c = cs[0] as int;
        if c < t.nodes.len() && is_kind(t, c, "variable_declarator"@) && field_child(t, c, "name"@) is Some {
            let name = match field_text(t, c, "name"@) {
                Some(s) => s,
                None => Seq::empty(),
            };
            let rest = ts_bindings(t, path, i, cs.drop_first());
            if binds_arrow(t, c) {
                lemma_entities_add(seq![entity_at(t, i, name, NodeKind::Function, Language::TypeScript, path)], rest, t, Language::TypeScript, path);
            } else if is_constant_name(name) {
                lemma_entities_add(seq![entity_at(t, i, name, NodeKind::Constant, Language::TypeScript, path)], rest, t, Language::TypeScript, path);
            }
        }
    }
}

proof fn lemma_ts_rest_entities(t: TreeView, path: Seq<char>, i: int, inside_class: bool)
    ensures
        all_entities_of(ts_rest(t, path, i, inside_class), t, Language::TypeScript, path),
    decreases t.nodes.len() - i, kids(t, i).len() + 1, 0int,
{
    if 0 <= i < t.nodes.len() && !is_kind(t, i, "class_declaration"@) {
        lemma_ts_defs_list_entities(t, path, i, kids(t, i), inside_class);
    }
}

proof fn lemma_ts_defs_entities(t: TreeView, path: Seq<char>, i: int, inside_class: bool)
    ensures
        all_entities_of(ts_defs(t, path, i, inside_class), t, Language::TypeScript, path),
    decreases t.nodes.len() - i, kids(t, i).len() + 1, 1int,
{
    if 0 <= i < t.nodes.len() {
        let lex = ts_lexical(t, path, i, inside_class);
        if is_kind(t, i, "lexical_declaration"@) && !inside_class {
            lemma_ts_bindings_entities(t, path, i, kids(t, i));
        }
        lemma_ts_rest_entities(t, path, i, inside_class);
        let tail = match ts_kind(t, i) {
            Some(k) => match ts_name(t, i, k) {
                Some(n) => seq![entity_at(t, i, n, k, Language::TypeScript, path)] + if k
                    == NodeKind::Class {
                    match field_child(t, i, "body"@) {
                        Some(b) => if i < b < t.nodes.len() {
                            ts_defs_list(t, path, b as int, kids(t, b as int), true)
                        } else {
                            seq![]
                        },
                        None => seq![],
                    }
                } else {
                    ts_rest(t, path, i, inside_class)
                },
                None => ts_rest(t, path, i, inside_class),
            },
            None => ts_rest(t, path, i, inside_class),
        };
        if let Some(k) = ts_kind(t, i) {
            if let Some(n) = ts_name(t, i, k) {
                let inner = if k == NodeKind::Class {
                    match field_child(t, i, "body"@) {
                        Some(b) => if i < b < t.nodes.len() {
                            lemma_ts_defs_list_entities(t, path, b as int, kids(t, b as int), true);
                            ts_defs_list(t, path, b as int, kids(t, b as int), true)
                        } else {
                            seq![]
                        },
                        None => seq![],
                    }
                } else {
                    ts_rest(t, path, i, inside_class)
                };
                lemma_entities_add(seq![entity_at(t, i, n, k, Language::TypeScript, path)], inner, t, Language::TypeScript, path);
            }
        }
        lemma_entities_add(lex, tail, t, Language::TypeScript, path);
    }
}

proof fn lemma_ts_defs_list_entities(
    t: TreeView,
    path: Seq<char>,
    p: int,
    cs: Seq<usize>,
    inside_class: bool,
)
    ensures
        all_entities_of(ts_defs_list(t, path, p, cs, inside_class), t, Language::TypeScript, path),
    decreases t.nodes.len() - p, cs.len(), 2int,
{
    if cs.len() > 0 {
        lemma_ts_defs_list_entities(t, path, p, cs.drop_last(), inside_class);
        if p < cs.last() < t.nodes.len() {
            lemma_ts_defs_entities(t, path, cs.last() as int, inside_class);
            lemma_entities_add(
                ts_defs_list(t, path, p, cs.drop_last(), inside_class),
                ts_defs(t, path, cs.last() as int, inside_class),
                t,
                Language::TypeScript,
                path,
            );
        } else {
            lemma_entities_add(
                ts_defs_list(t, path, p, cs.drop_last(), inside_class),
                seq![],
                t,
                Language::TypeScript,
                path,
            );
        }
    }
}

/// Every entity the TypeScript extractor finds belongs to the file at
/// `path`, is tagged TypeScript, is unsaved, and is not a file node.
pub proof fn lemma_typescript_entities_of_file(t: TreeView, path: Seq<char>)
    ensures
        all_entities_of(typescript_entities(t, path), t, Language::TypeScript, path),
{
    if t.nodes.len() > 0 {
        lemma_ts_defs_entities(t, path, 0, false);
    }
}

fn push(out: &mut Vec<Node>, e: Node)
    ensures
        node_values(final(out)@) == node_values(old(out)@).push(e@),
{
    proof {
        lemma_node_values_push(out@, e);
    }
    out.push(e);
}

fn kind_at(d: &Document, i: usize) -> (r: Option<NodeKind>)
    requires
        i < d.tree@.nodes.len(),
    ensures
        r == ts_kind(d.tree@, i as int),
{
    if d.kind_is(i, "function_declaration") {
        Some(NodeKind::Function)
    } else if d.kind_is(i, "method_definition") {
        Some(NodeKind::Method)
    } else if d.kind_is(i, "class_declaration") {
        Some(NodeKind::Class)
    } else if d.kind_is(i, "interface_declaration") {
        Some(NodeKind::Interface)
    } else if d.kind_is(i, "type_alias_declaration") {
        Some(NodeKind::TypeAlias)
    } else if d.kind_is(i, "enum_declaration") {
        Some(NodeKind::Enum)
    } else if d.kind_is(i, "import_statement") {
        Some(NodeKind::Import)
    } else {
        None
    }
}

fn push_lexical(d: &Document, path: &str, i: usize, inside_class: bool, out: &mut Vec<Node>)
    requires
        d.wf(),
        i < d.tree@.nodes.len(),
    ensures
        node_values(final(out)@) == node_values(old(out)@) + ts_lexical(
            d.tree@,
            path@,
            i as int,
            inside_class,
        ),
{
    let ghost t = d.tree@;
    let ghost start = node_values(out@);
    if !(d.kind_is(i, "lexical_declaration") && !inside_class) {
        assert(node_values(out@) =~= start + Seq::<NodeValue>::empty());
        return;
    }
    let cs = &d.kids[i];
    proof {
        lemma_kids_bounds(t, i as int);
    }
    let mut m: usize = 0;
    assert(cs@.subrange(0, cs@.len() as int) =~= cs@);
    while m < cs.len()
        invariant
            d.wf(),
            t == d.tree@,
            i < t.nodes.len(),
            m <= cs@.len(),
            cs@ == kids(t, i as int),
            forall|x: int| 0 <= x < cs@.len() ==> i < #[trigger] cs@[x] < t.nodes.len(),
            node_values(out@) + ts_bindings(t, path@, i as int, cs@.subrange(m as int, cs@.len() as int))
                == start + ts_bindings(t, path@, i as int, cs@),
            start == node_values(old(out)@),
            ts_lexical(t, path@, i as int, inside_class) == ts_bindings(t, path@, i as int, cs@),
        decreases cs@.len() - m,
    {
        let c = cs[m];
        let ghost rest = cs@.subrange(m + 1, cs@.len() as int);
        assert(cs@.subrange(m as int, cs@.len() as int).drop_first() =~= rest);
        assert(cs@.subrange(m as int, cs@.len() as int)[0] == c);
        if d.kind_is(c, "variable_declarator") {
            if d.field_child(c, "name").is_some() {
                let name = match d.field_text(c, "name") {
                    Some(s) => s,
                    None => String::new(),
                };
                let arrow = match d.field_child(c, "value") {
                    Some(v) => d.kind_is(v, "arrow_function"),
                    None => false,
                };
                let ghost before = node_values(out@);
                if arrow {
                    push(out, d.entity(i, name, NodeKind::Function, Language::TypeScript, path));
                } else if constant_name(name.as_str()) {
                    push(out, d.entity(i, name, NodeKind::Constant, Language::TypeScript, path));
                } else {
                    assert(node_values(out@) =~= start + ts_bindings(t, path@, i as int, cs@));
                    return;
                }
                assert(node_values(out@) + ts_bindings(t, path@, i as int, rest) =~= before
                    + ts_bindings(t, path@, i as int, cs@.subrange(m as int, cs@.len() as int)));
            }
        }
        m = m + 1;
    }
    assert(cs@.subrange(m as int, cs@.len() as int) =~= Seq::<usize>::empty());
    assert(node_values(out@) =~= start + ts_bindings(t, path@, i as int, cs@));
}

fn push_named(d: &Document, path: &str, i: usize, k: NodeKind, out: &mut Vec<Node>) -> (named: bool)
    requires
        d.wf(),
        i < d.tree@.nodes.len(),
    ensures
        named == (ts_name(d.tree@, i as int, k) is Some),
        node_values(final(out)@) == node_values(old(out)@) + match ts_name(d.tree@, i as int, k) {
            Some(n) => seq![entity_at(d.tree@, i as int, n, k, Language::TypeScript, path@)],
            None => seq![],
        },
{
    let ghost start = node_values(out@);
    let name = if k == NodeKind::Import {
        d.trimmed_text(i)
    } else {
        d.field_text(i, "name")
    };
    match name {
        Some(n) => {
            push(out, d.entity(i, n, k, Language::TypeScript, path));
            true
        },
        None => {
            assert(node_values(out@) =~= start + Seq::<NodeValue>::empty());
            false
        },
    }
}

fn visit_rest(d: &Document, path: &str, i: usize, inside_class: bool, out: &mut Vec<Node>)
    requires
        d.wf(),
        i < d.tree@.nodes.len(),
    ensures
        node_values(final(out)@) == node_values(old(out)@) + ts_rest(
            d.tree@,
            path@,
            i as int,
            inside_class,
        ),
    decreases d.tree@.nodes.len() - i, 1nat,
{
    if !d.kind_is(i, "class_declaration") {
        visit_children(d, path, i, inside_class, out);
    } else {
        assert(node_values(out@) =~= node_values(out@) + Seq::<NodeValue>::empty());
    }
}

fn visit(d: &Document, path: &str, i: usize, inside_class: bool, out: &mut Vec<Node>)
    requires
        d.wf(),
        i < d.tree@.nodes.len(),
    ensures
        node_values(final(out)@) == node_values(old(out)@) + ts_defs(
            d.tree@,
            path@,
            i as int,
            inside_class,
        ),
    decreases d.tree@.nodes.len() - i, 2nat,
{
    let ghost t = d.tree@;
    let ghost start = node_values(out@);
    push_lexical(d, path, i, inside_class, out);
    let ghost lex = node_values(out@);
    match kind_at(d, i) {
        Some(k) => {
            if push_named(d, path, i, k, out) {
                if k == NodeKind::Class {
                    match d.field_child(i, "body") {
                        Some(b) => visit_children(d, path, b, true, out),
                        None => {},
                    }
                } else {
                    visit_rest(d, path, i, inside_class, out);
                }
            } else {
                visit_rest(d, path, i, inside_class, out);
            }
        },
        None => visit_rest(d, path, i, inside_class, out),
    }
    assert(node_values(out@) =~= start + ts_defs(t, path@, i as int, inside_class));
}

fn visit_children(d: &Document, path: &str, i: usize, inside_class: bool, out: &mut Vec<Node>)
    requires
        d.wf(),
        i < d.tree@.nodes.len(),
    ensures
        node_values(final(out)@) == node_values(old(out)@) + ts_defs_list(
            d.tree@,
            path@,
            i as int,
            kids(d.tree@, i as int),
            inside_class,
        ),
    decreases d.tree@.nodes.len() - i, 0nat,
{
    let ghost t = d.tree@;
    let ghost mid = node_values(out@);
    let cs = &d.kids[i];
    proof {
        lemma_kids_bounds(t, i as int);
    }
    let mut m: usize = 0;
    assert(cs@.subrange(0, 0) =~= Seq::<usize>::empty());
    while m < cs.len()
        invariant
            d.wf(),
            t == d.tree@,
            i < t.nodes.len(),
            cs@ == kids(t, i as int),
            forall|x: int| 0 <= x < cs@.len() ==> i < #[trigger] cs@[x] < t.nodes.len(),
            m <= cs@.len(),
            node_values(out@) == mid + ts_defs_list(
                t,
                path@,
                i as int,
                cs@.subrange(0, m as int),
                inside_class,
            ),
        decreases cs@.len() - m,
    {
        let c = cs[m];
        visit(d, path, c, inside_class, out);
        assert(cs@.subrange(0, m + 1).drop_last() =~= cs@.subrange(0, m as int));
        assert(node_values(out@) =~= mid + ts_defs_list(
            t,
            path@,
            i as int,
            cs@.subrange(0, m + 1),
            inside_class,
        ));
        m = m + 1;
    }
    assert(cs@.subrange(0, cs@.len() as int) =~= cs@);
}

/// The TypeScript entities of a syntax tree, in document order.
pub fn definitions(d: &Document, path: &str) -> (r: Vec<Node>)
    requires
        d.wf(),
    ensures
        node_values(r@) == typescript_entities(d.tree@, path@),
{
    let mut out: Vec<Node> = Vec::new();
    assert(node_values(out@) =~= Seq::<NodeValue>::empty());
    if d.tree.nodes.len() > 0 {
        visit(d, path, 0, false, &mut out);
        assert(node_values(out@) =~= ts_defs(d.tree@, path@, 0, false));
    }
    out
}

/// Builds the parse of `content` at `path` from its TSX syntax tree: the
/// file node, the entities in document order, and a `Contains` edge from the
/// file node to each entity.
pub fn parse_tree(path: &str, content: &str, tree: SyntaxTree) -> (r: ParseResult)
    ensures
        parse_value(r, path@, content@, Language::TypeScript, typescript_entities(tree@, path@)),
{
    let d = Document::new(tree);
    let defs = definitions(&d, path);
    assemble(path, content, Language::TypeScript, defs)
}

/// Parses a TypeScript (or TSX, or JavaScript) source file: the file node, its entities and the
/// `Contains` edges from the file node to each entity. Fails only when
/// the tree-sitter grammar cannot be loaded; any text, malformed or not, parses.
pub fn parse_with_edges(path: &str, content: &str) -> (r: Result<ParseResult, DeagleError>)
    ensures
        match syntax_view(Grammar::Tsx, content@) {
            Some(t) => r matches Ok(p) && parse_value(p, path@, content@, Language::TypeScript, typescript_entities(t, path@)),
            None => r matches Err(e) && parse_failure(e, path@, Grammar::Tsx),
        },
        syntax_view(Grammar::Tsx, content@) matches Some(t) ==> (encode_utf8(content@).len() < u32::MAX
            ==> tree_rows_in_order(t)),
{
    match syntax_tree(Grammar::Tsx, content) {
        Ok(tree) => Ok(parse_tree(path, content, tree)),
        Err(m) => Err(parse_error(path, m)),
    }
}

/// Parses a TypeScript (or TSX, or JavaScript) source file into its nodes (the file node first).
pub fn parse(path: &str, content: &str) -> (r: Result<Vec<Node>, DeagleError>)
    ensures
        match syntax_view(Grammar::Tsx, content@) {
            Some(t) => r matches Ok(v) && node_values(v@) == seq![file_entity(path@, content@, Language::TypeScript)] + typescript_entities(t, path@),
            None => r matches Err(e) && parse_failure(e, path@, Grammar::Tsx),
        },
        syntax_view(Grammar::Tsx, content@) matches Some(t) ==> (encode_utf8(content@).len() < u32::MAX
            ==> tree_rows_in_order(t)),
{
    match parse_with_edges(path, content) {
        Ok(p) => Ok(p.nodes),
        Err(e) => Err(e),
    }
}

} // verus!
