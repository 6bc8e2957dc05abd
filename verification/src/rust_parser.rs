//! Rust: functions, structs, enums, traits, constants, type aliases,
//! modules, `use` declarations, and the methods of `impl` blocks.
use vstd::prelude::*;
use crate::extract::{all_entities_of, lemma_entities_add, assemble, entity_at, file_entity, parse_error, parse_failure, parse_value, trimmed_text};
use crate::model::{DeagleError, Language, Node, NodeKind, NodeValue, ParseResult, node_values, lemma_node_values_push};
use crate::grammar::{Grammar, syntax_tree, syntax_view, tree_rows_in_order};
use vstd::utf8::encode_utf8;
use crate::syntax::{Document, SyntaxTree, TreeView, first_of_kinds, is_kind, kids, kind_of, lemma_kids_bounds, opt_text_eq, text_of};

verus! {

/// Node `i` is an item of the body of an `impl` block: its parent is a
/// declaration list whose parent is an `impl_item`.
pub open spec fn in_impl_body(t: TreeView, i: int) -> bool {
    let b = t.nodes[i].parent as int;
    &&& b < t.nodes.len()
    &&& kind_of(t, b) == "declaration_list"@
    &&& t.nodes[b].parent < t.nodes.len()
    &&& kind_of(t, t.nodes[b].parent as int) == "impl_item"@
}

/// The kind of entity node `i` declares, if any. A function in the body of
/// an `impl` block is a method, listed with its block, and no function.
pub open spec fn rust_kind(t: TreeView, i: int) -> Option<NodeKind> {
    let k = kind_of(t, i);
    if k == "function_item"@ {
        if in_impl_body(t, i) {
            None
        } else {
            Some(NodeKind::Function)
        }
    } else if k == "struct_item"@ {
        Some(NodeKind::Struct)
    } else if k == "enum_item"@ {
        Some(NodeKind::Enum)
    } else if k == "trait_item"@ {
        Some(NodeKind::Trait)
    } else if k == "const_item"@ || k == "static_item"@ {
        Some(NodeKind::Constant)
    } else if k == "type_item"@ {
        Some(NodeKind::TypeAlias)
    } else if k == "mod_item"@ {
        Some(NodeKind::Module)
    } else if k == "use_declaration"@ {
        Some(NodeKind::Import)
    } else {
        None
    }
}

/// Text of the first `identifier` or `type_identifier` child of node `i`.
pub open spec fn ident_text(t: TreeView, i: int) -> Option<Seq<char>> {
    match first_of_kinds(t, kids(t, i), "identifier"@, "type_identifier"@) {
        Some(c) => text_of(t, c as int),
        None => None,
    }
}

/// The name of the entity of kind `k` declared at node `i`: a `use`
/// declaration is named by its whole text, anything else by its identifier.
pub open spec fn rust_name(t: TreeView, i: int, k: NodeKind) -> Option<Seq<char>> {
    if k == NodeKind::Import {
        trimmed_text(t, i)
    } else {
        ident_text(t, i)
    }
}

/// The entity node `i` itself yields.
pub open spec fn rust_entity(t: TreeView, path: Seq<char>, i: int) -> Seq<NodeValue> {
    match rust_kind(t, i) {
        Some(k) => match rust_name(t, i, k) {
            Some(n) => seq![entity_at(t, i, n, k, Language::Rust, path)],
            None => seq![],
        },
        None => seq![],
    }
}

/// Methods among the items `items` of a declaration list: its named
/// `function_item`s.
pub open spec fn decl_methods(t: TreeView, path: Seq<char>, items: Seq<usize>) -> Seq<NodeValue>
    decreases items.len(),
{
    if items.len() == 0 {
        seq![]
    } else {
        decl_methods(t, path, items.drop_last()) + {
            let c = items.last() as int;
            if c < t.nodes.len() && is_kind(t, c, "function_item"@) {
                match ident_text(t, c) {
                    Some(n) => seq![entity_at(t, c, n, NodeKind::Method, Language::Rust, path)],
                    None => seq![],
                }
            } else {
                seq![]
            }
        }
    }
}

/// Methods of an `impl` block whose children are `cs`: those of each of its
/// declaration lists.
pub open spec fn impl_methods(t: TreeView, path: Seq<char>, cs: Seq<usize>) -> Seq<NodeValue>
    decreases cs.len(),
{
    if cs.len() == 0 {
        seq![]
    } else {
        impl_methods(t, path, cs.drop_last()) + {
            let c = cs.last() as int;
            if c < t.nodes.len() && is_kind(t, c, "declaration_list"@) {
                decl_methods(t, path, kids(t, c))
            } else {
                seq![]
            }
        }
    }
}

/// Entities found in the subtree of node `i`, in document order. The
/// functions of an `impl` block are listed as its methods, right after it.
pub open spec fn rust_defs(t: TreeView, path: Seq<char>, i: int) -> Seq<NodeValue>
    decreases t.nodes.len() - i, kids(t, i).len() + 1,
{
    if 0 <= i < t.nodes.len() {
        rust_entity(t, path, i) + (if is_kind(t, i, "impl_item"@) {
            impl_methods(t, path, kids(t, i))
        } else {
            seq![]
        }) + rust_defs_list(t, path, i, kids(t, i))
    } else {
        seq![]
    }
}

/// Entities in the subtrees of the children `cs` of node `p`; an `impl`
/// block directly inside an `impl` block is not entered.
pub open spec fn rust_defs_list(t: TreeView, path: Seq<char>, p: int, cs: Seq<usize>) -> Seq<
    NodeValue,
>
    decreases t.nodes.len() - p, cs.len(),
{
    if cs.len() == 0 {
        seq![]
    } else {
        rust_defs_list(t, path, p, cs.drop_last()) + if p < cs.last() < t.nodes.len() {
            if is_kind(t, cs.last() as int, "impl_item"@) && is_kind(t, p, "impl_item"@) {
                seq![]
            } else {
                rust_defs(t, path, cs.last() as int)
            }
        } else {
            seq![]
        }
    }
}

proof fn lemma_decl_methods_entities(t: TreeView, path: Seq<char>, items: Seq<usize>)
    ensures
        all_entities_of(decl_methods(t, path, items), t, Language::Rust, path),
    decreases items.len(),
{
    if items.len() > 0 {
        lemma_decl_methods_entities(t, path, items.drop_last());
        let c = items.last() as int;
        let last = if c < t.nodes.len() && is_kind(t, c, "function_item"@) {
            match ident_text(t, c) {
                Some(n) => seq![entity_at(t, c, n, NodeKind::Method, Language::Rust, path)],
                None => seq![],
            }
        } else {
            seq![]
        };
        lemma_entities_add(decl_methods(t, path, items.drop_last()), last, t, Language::Rust, path);
    }
}

proof fn lemma_impl_methods_entities(t: TreeView, path: Seq<char>, cs: Seq<usize>)
    ensures
        all_entities_of(impl_methods(t, path, cs), t, Language::Rust, path),
    decreases cs.len(),
{
    if cs.len() > 0 {
        lemma_impl_methods_entities(t, path, cs.drop_last());
        let c = cs.last() as int;
        if c < t.nodes.len() && is_kind(t, c, "declaration_list"@) {
            lemma_decl_methods_entities(t, path, kids(t, c));
            lemma_entities_add(impl_methods(t, path, cs.drop_last()), decl_methods(t, path, kids(t, c)), t, Language::Rust, path);
        } else {
            lemma_entities_add(impl_methods(t, path, cs.drop_last()), seq![], t, Language::Rust, path);
        }
    }
}

proof fn lemma_rust_defs_entities(t: TreeView, path: Seq<char>, i: int)
    ensures
        all_entities_of(rust_defs(t, path, i), t, Language::Rust, path),
    decreases t.nodes.len() - i, kids(t, i).len() + 1,
{
    if 0 <= i < t.nodes.len() {
        let methods = if is_kind(t, i, "impl_item"@) {
            lemma_impl_methods_entities(t, path, kids(t, i));
            impl_methods(t, path, kids(t, i))
        } else {
            seq![]
        };
        lemma_rust_defs_list_entities(t, path, i, kids(t, i));
        lemma_entities_add(rust_entity(t, path, i), methods, t, Language::Rust, path);
        lemma_entities_add(rust_entity(t, path, i) + methods, rust_defs_list(t, path, i, kids(t, i)), t, Language::Rust, path);
    }
}

proof fn lemma_rust_defs_list_entities(t: TreeView, path: Seq<char>, p: int, cs: Seq<usize>)
    ensures
        all_entities_of(rust_defs_list(t, path, p, cs), t, Language::Rust, path),
    decreases t.nodes.len() - p, cs.len(),
{
    if cs.len() > 0 {
        lemma_rust_defs_list_entities(t, path, p, cs.drop_last());
        let c = cs.last() as int;
        if p < c < t.nodes.len() && !(is_kind(t, c, "impl_item"@) && is_kind(t, p, "impl_item"@)) {
            lemma_rust_defs_entities(t, path, c);
            lemma_entities_add(rust_defs_list(t, path, p, cs.drop_last()), rust_defs(t, path, c), t, Language::Rust, path);
        } else {
            lemma_entities_add(rust_defs_list(t, path, p, cs.drop_last()), seq![], t, Language::Rust, path);
        }
    }
}

/// Every entity the Rust extractor finds belongs to the file at `path`, is
/// tagged Rust, is unsaved, and is not a file node.
pub proof fn lemma_rust_entities_of_file(t: TreeView, path: Seq<char>)
    ensures
        all_entities_of(rust_entities(t, path), t, Language::Rust, path),
{
    if t.nodes.len() > 0 {
        lemma_rust_defs_entities(t, path, 0);
    }
}

/// The Rust entity-kind table: `mod_item` declares a module, `struct_item`
/// a struct, `enum_item` an enum, `trait_item` a trait, `const_item` and
/// `static_item` a constant, `type_item` a type alias, `use_declaration` an
/// import, and `function_item` a function, except in an `impl` body, where
/// it is a method and no function; an `impl_item` declares nothing itself.
/// A node that declares an entity and has a name heads the entities of its
/// subtree, named so and spanning that node's lines; in particular a
/// `mod m` item yields a module named `m`.
pub proof fn lemma_rust_kind_table(t: TreeView, path: Seq<char>, i: int, n: Seq<char>)
    ensures
        kind_of(t, i) == "mod_item"@ ==> rust_kind(t, i) == Some(NodeKind::Module),
        kind_of(t, i) == "struct_item"@ ==> rust_kind(t, i) == Some(NodeKind::Struct),
        kind_of(t, i) == "enum_item"@ ==> rust_kind(t, i) == Some(NodeKind::Enum),
        kind_of(t, i) == "trait_item"@ ==> rust_kind(t, i) == Some(NodeKind::Trait),
        kind_of(t, i) == "const_item"@ ==> rust_kind(t, i) == Some(NodeKind::Constant),
        kind_of(t, i) == "static_item"@ ==> rust_kind(t, i) == Some(NodeKind::Constant),
        kind_of(t, i) == "type_item"@ ==> rust_kind(t, i) == Some(NodeKind::TypeAlias),
        kind_of(t, i) == "use_declaration"@ ==> rust_kind(t, i) == Some(NodeKind::Import),
        kind_of(t, i) == "function_item"@ && !in_impl_body(t, i) ==> rust_kind(t, i) == Some(NodeKind::Function),
        kind_of(t, i) == "function_item"@ && in_impl_body(t, i) ==> rust_kind(t, i) is None,
        kind_of(t, i) == "impl_item"@ ==> rust_kind(t, i) is None,
        0 <= i < t.nodes.len() && (rust_kind(t, i) matches Some(k) && rust_name(t, i, k) == Some(n)) ==> rust_defs(t, path, i).len() > 0
            && rust_defs(t, path, i)[0] == entity_at(t, i, n, rust_kind(t, i)->0, Language::Rust, path),
        0 <= i < t.nodes.len() && kind_of(t, i) == "mod_item"@ && ident_text(t, i) == Some(n) ==> rust_defs(t, path, i).len() > 0
            && rust_defs(t, path, i)[0] == entity_at(t, i, n, NodeKind::Module, Language::Rust, path),
{
    reveal_strlit("function_item");
    reveal_strlit("struct_item");
    reveal_strlit("enum_item");
    reveal_strlit("trait_item");
    reveal_strlit("const_item");
    reveal_strlit("static_item");
    reveal_strlit("type_item");
    reveal_strlit("mod_item");
    reveal_strlit("use_declaration");
    reveal_strlit("impl_item");
    let k = kind_of(t, i);
    if k == "struct_item"@ {
        assert(k[0] != "function_item"@[0]);
    } else if k == "enum_item"@ {
        assert(k[0] != "function_item"@[0]);
        assert(k[0] != "struct_item"@[0]);
    } else if k == "trait_item"@ {
        assert(k[0] != "function_item"@[0]);
        assert(k[0] != "struct_item"@[0]);
        assert(k[0] != "enum_item"@[0]);
    } else if k == "const_item"@ {
        assert(k[0] != "function_item"@[0]);
        assert(k[0] != "struct_item"@[0]);
        assert(k[0] != "enum_item"@[0]);
        assert(k[0] != "trait_item"@[0]);
    } else if k == "static_item"@ {
        assert(k[0] != "function_item"@[0]);
        assert(k[2] != "struct_item"@[2]);
        assert(k[0] != "enum_item"@[0]);
        assert(k[0] != "trait_item"@[0]);
    } else if k == "type_item"@ {
        assert(k[0] != "function_item"@[0]);
        assert(k[0] != "struct_item"@[0]);
        assert(k[0] != "enum_item"@[0]);
        assert(k[1] != "trait_item"@[1]);
        assert(k[0] != "const_item"@[0]);
        assert(k[0] != "static_item"@[0]);
    } else if k == "mod_item"@ {
        assert(k[0] != "function_item"@[0]);
    } else if k == "use_declaration"@ {
        assert(k[0] != "function_item"@[0]);
        assert(k[0] != "struct_item"@[0]);
        assert(k[0] != "enum_item"@[0]);
        assert(k[0] != "trait_item"@[0]);
        assert(k[0] != "const_item"@[0]);
        assert(k[0] != "static_item"@[0]);
        assert(k[0] != "type_item"@[0]);
        assert(k[0] != "mod_item"@[0]);
    } else if k == "impl_item"@ {
        assert(k[0] != "function_item"@[0]);
        assert(k[0] != "struct_item"@[0]);
        assert(k[0] != "enum_item"@[0]);
        assert(k[0] != "trait_item"@[0]);
        assert(k[0] != "const_item"@[0]);
        assert(k[0] != "static_item"@[0]);
        assert(k[0] != "type_item"@[0]);
        assert(k[0] != "mod_item"@[0]);
        assert(k[0] != "use_declaration"@[0]);
    }
    if 0 <= i < t.nodes.len() {
        let methods = if is_kind(t, i, "impl_item"@) {
            impl_methods(t, path, kids(t, i))
        } else {
            seq![]
        };
        let d = rust_entity(t, path, i) + methods + rust_defs_list(t, path, i, kids(t, i));
        assert(rust_defs(t, path, i) == d);
        if rust_kind(t, i) matches Some(k) && rust_name(t, i, k) == Some(n) {
            assert(d[0] == rust_entity(t, path, i)[0]);
        }
        if k == "mod_item"@ && ident_text(t, i) == Some(n) {
            assert(rust_name(t, i, NodeKind::Module) == Some(n));
            assert(d[0] == rust_entity(t, path, i)[0]);
        }
    }
}

/// The Rust entities of a whole syntax tree.
pub open spec fn rust_entities(t: TreeView, path: Seq<char>) -> Seq<NodeValue> {
    if t.nodes.len() > 0 {
        rust_defs(t, path, 0)
    } else {
        seq![]
    }
}

fn kind_at(d: &Document, i: usize) -> (r: Option<NodeKind>)
    requires
        i < d.tree@.nodes.len(),
    ensures
        r == rust_kind(d.tree@, i as int),
{
    if d.kind_is(i, "function_item") {
        let n = d.tree.nodes.len();
        let b = d.tree.nodes[i].parent;
        let in_impl = b < n && d.kind_is(b, "declaration_list") && d.tree.nodes[b].parent < n
            && d.kind_is(d.tree.nodes[b].parent, "impl_item");
        if in_impl {
            None
        } else {
            Some(NodeKind::Function)
        }
    } else if d.kind_is(i, "struct_item") {
        Some(NodeKind::Struct)
    } else if d.kind_is(i, "enum_item") {
        Some(NodeKind::Enum)
    } else if d.kind_is(i, "trait_item") {
        Some(NodeKind::Trait)
    } else if d.kind_is(i, "const_item") || d.kind_is(i, "static_item") {
        Some(NodeKind::Constant)
    } else if d.kind_is(i, "type_item") {
        Some(NodeKind::TypeAlias)
    } else if d.kind_is(i, "mod_item") {
        Some(NodeKind::Module)
    } else if d.kind_is(i, "use_declaration") {
        Some(NodeKind::Import)
    } else {
        None
    }
}

fn ident_at(d: &Document, i: usize) -> (r: Option<String>)
    requires
        d.wf(),
        i < d.tree@.nodes.len(),
    ensures
        opt_text_eq(r, ident_text(d.tree@, i as int)),
{
    match d.child_of_kinds(i, "identifier", "type_identifier") {
        Some(c) => d.text(c),
        None => None,
    }
}

fn name_at(d: &Document, i: usize, k: NodeKind) -> (r: Option<String>)
    requires
        d.wf(),
        i < d.tree@.nodes.len(),
    ensures
        opt_text_eq(r, rust_name(d.tree@, i as int, k)),
{
    if k == NodeKind::Import {
        d.trimmed_text(i)
    } else {
        ident_at(d, i)
    }
}

fn push_decl_methods(d: &Document, path: &str, list: usize, out: &mut Vec<Node>)
    requires
        d.wf(),
        list < d.tree@.nodes.len(),
    ensures
        node_values(final(out)@) == node_values(old(out)@) + decl_methods(
            d.tree@,
            path@,
            kids(d.tree@, list as int),
        ),
{
    let ghost t = d.tree@;
    let ghost start = node_values(out@);
    let items = &d.kids[list];
    proof {
        lemma_kids_bounds(t, list as int);
    }
    let mut m: usize = 0;
    assert(items@.subrange(0, 0) =~= Seq::<usize>::empty());
    while m < items.len()
        invariant
            d.wf(),
            t == d.tree@,
            items@ == kids(t, list as int),
            forall|x: int| 0 <= x < items@.len() ==> list < #[trigger] items@[x] < t.nodes.len(),
            m <= items@.len(),
            node_values(out@) == start + decl_methods(t, path@, items@.subrange(0, m as int)),
        decreases items@.len() - m,
    {
        let c = items[m];
        assert(items@.subrange(0, m + 1).drop_last() =~= items@.subrange(0, m as int));
        if d.kind_is(c, "function_item") {
            match ident_at(d, c) {
                Some(n) => {
                    let e = d.entity(c, n, NodeKind::Method, Language::Rust, path);
                    proof {
                        lemma_node_values_push(out@, e);
                    }
                    out.push(e);
                },
                None => {},
            }
        }
        assert(node_values(out@) =~= start + decl_methods(t, path@, items@.subrange(0, m + 1)));
        m = m + 1;
    }
    assert(items@.subrange(0, items@.len() as int) =~= items@);
}

fn push_impl_methods(d: &Document, path: &str, i: usize, out: &mut Vec<Node>)
    requires
        d.wf(),
        i < d.tree@.nodes.len(),
    ensures
        node_values(final(out)@) == node_values(old(out)@) + impl_methods(
            d.tree@,
            path@,
            kids(d.tree@, i as int),
        ),
{
    let ghost t = d.tree@;
    let ghost start = node_values(out@);
    let cs = &d.kids[i];
    proof {
        lemma_kids_bounds(t, i as int);
    }
    let mut m: usize = 0;
    assert(cs@.subrange(0, 0) =~= Seq::<usize>::empty());
    while m < cs.len()
        invariant
            d.wf(),
            t == d.tree@,
            cs@ == kids(t, i as int),
            forall|x: int| 0 <= x < cs@.len() ==> i < #[trigger] cs@[x] < t.nodes.len(),
            m <= cs@.len(),
            node_values(out@) == start + impl_methods(t, path@, cs@.subrange(0, m as int)),
        decreases cs@.len() - m,
    {
        let c = cs[m];
        assert(cs@.subrange(0, m + 1).drop_last() =~= cs@.subrange(0, m as int));
        if d.kind_is(c, "declaration_list") {
            push_decl_methods(d, path, c, out);
        }
        assert(node_values(out@) =~= start + impl_methods(t, path@, cs@.subrange(0, m + 1)));
        m = m + 1;
    }
    assert(cs@.subrange(0, cs@.len() as int) =~= cs@);
}

fn visit(d: &Document, path: &str, i: usize, out: &mut Vec<Node>)
    requires
        d.wf(),
        i < d.tree@.nodes.len(),
    ensures
        node_values(final(out)@) == node_values(old(out)@) + rust_defs(d.tree@, path@, i as int),
    decreases d.tree@.nodes.len() - i,
{
    let ghost t = d.tree@;
    let ghost start = node_values(out@);
    match kind_at(d, i) {
        Some(k) => match name_at(d, i, k) {
            Some(n) => {
                let e = d.entity(i, n, k, Language::Rust, path);
                proof {
                    lemma_node_values_push(out@, e);
                }
                out.push(e);
            },
            None => {},
        },
        None => {},
    }
    assert(node_values(out@) == start + rust_entity(t, path@, i as int));
    let is_impl = d.kind_is(i, "impl_item");
    if is_impl {
        push_impl_methods(d, path, i, out);
    }
    let ghost mid = node_values(out@);
    assert(mid =~= start + rust_entity(t, path@, i as int) + (if is_kind(t, i as int, "impl_item"@) {
        impl_methods(t, path@, kids(t, i as int))
    } else {
        seq![]
    }));
    let cs = &d.kids[i];
    proof {
        lemma_kids_bounds(t, i as int);
    }
    let mut m: usize = 0;
    assert(cs@.subrange(0, 0) =~= Seq::<usize>::empty());
    while m < cs.len()
        invariant
            d.wf(),
            t == d.tree@,
            i < t.nodes.len(),
            is_impl == is_kind(t, i as int, "impl_item"@),
            cs@ == kids(t, i as int),
            forall|x: int| 0 <= x < cs@.len() ==> i < #[trigger] cs@[x] < t.nodes.len(),
            m <= cs@.len(),
            node_values(out@) == mid + rust_defs_list(t, path@, i as int, cs@.subrange(0, m as int)),
        decreases cs@.len() - m,
    {
        let c = cs[m];
        if !(d.kind_is(c, "impl_item") && is_impl) {
            visit(d, path, c, out);
        }
        assert(cs@.subrange(0, m + 1).drop_last() =~= cs@.subrange(0, m as int));
        assert(node_values(out@) =~= mid + rust_defs_list(
            t,
            path@,
            i as int,
            cs@.subrange(0, m + 1),
        ));
        m = m + 1;
    }
    assert(cs@.subrange(0, cs@.len() as int) =~= cs@);
    assert(node_values(out@) =~= start + rust_defs(t, path@, i as int));
}

/// The Rust entities of a syntax tree, in document order.
pub fn definitions(d: &Document, path: &str) -> (r: Vec<Node>)
    requires
        d.wf(),
    ensures
        node_values(r@) == rust_entities(d.tree@, path@),
{
    let mut out: Vec<Node> = Vec::new();
    assert(node_values(out@) =~= Seq::<NodeValue>::empty());
    if d.tree.nodes.len() > 0 {
        visit(d, path, 0, &mut out);
        assert(node_values(out@) =~= rust_defs(d.tree@, path@, 0));
    }
    out
}

/// Builds the parse of `content` at `path` from its Rust syntax tree: the
/// file node, the entities in document order, and a `Contains` edge from the
/// file node to each entity.
pub fn parse_tree(path: &str, content: &str, tree: SyntaxTree) -> (r: ParseResult)
    ensures
        parse_value(r, path@, content@, Language::Rust, rust_entities(tree@, path@)),
{
    let d = Document::new(tree);
    let defs = definitions(&d, path);
    assemble(path, content, Language::Rust, defs)
}

/// Parses a Rust source file: the file node, its entities and the
/// `Contains` edges from the file node to each entity. Fails only when
/// the tree-sitter grammar cannot be loaded; any text, malformed or not, parses.
pub fn parse_with_edges(path: &str, content: &str) -> (r: Result<ParseResult, DeagleError>)
    ensures
        match syntax_view(Grammar::Rust, content@) {
            Some(t) => r matches Ok(p) && parse_value(p, path@, content@, Language::Rust, rust_entities(t, path@)),
            None => r matches Err(e) && parse_failure(e, path@, Grammar::Rust),
        },
        syntax_view(Grammar::Rust, content@) matches Some(t) ==> (encode_utf8(content@).len() < u32::MAX
            ==> tree_rows_in_order(t)),
{
    match syntax_tree(Grammar::Rust, content) {
        Ok(tree) => Ok(parse_tree(path, content, tree)),
        Err(m) => Err(parse_error(path, m)),
    }
}

/// Parses a Rust source file into its nodes (the file node first).
pub fn parse(path: &str, content: &str) -> (r: Result<Vec<Node>, DeagleError>)
    ensures
        match syntax_view(Grammar::Rust, content@) {
            Some(t) => r matches Ok(v) && node_values(v@) == seq![file_entity(path@, content@, Language::Rust)] + rust_entities(t, path@),
            None => r matches Err(e) && parse_failure(e, path@, Grammar::Rust),
        },
        syntax_view(Grammar::Rust, content@) matches Some(t) ==> (encode_utf8(content@).len() < u32::MAX
            ==> tree_rows_in_order(t)),
{
    match parse_with_edges(path, content) {
        Ok(p) => Ok(p.nodes),
        Err(e) => Err(e),
    }
}

} // verus!
