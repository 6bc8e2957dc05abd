//! Java: methods, constructors, classes, interfaces, enums, imports,
//! packages and constants (constant declarations and `static final` fields).
use vstd::prelude::*;
use crate::extract::{all_entities_of, lemma_entities_add, assemble, entity_at, field_text, file_entity, parse_error, parse_failure, parse_value, trimmed_text};
use crate::model::{DeagleError, Language, Node, NodeKind, NodeValue, ParseResult, node_values, lemma_node_values_push};
use crate::grammar::{Grammar, syntax_tree, syntax_view, tree_rows_in_order};
use vstd::utf8::encode_utf8;
use crate::syntax::{Document, SyntaxTree, TreeView, field_child, is_kind, kids, kind_of, lemma_kids_bounds, opt_text_eq, text_of};
use crate::text::{contains_spec, str_contains};

verus! {

/// Whether a field declaration's text marks it `static` and `final`.
pub open spec fn is_static_final(s: Seq<char>) -> bool {
    contains_spec(s, "static"@) && contains_spec(s, "final"@)
}

/// Text of node `i`, or the empty text when it has none.
pub open spec fn text_or_empty(t: TreeView, i: int) -> Seq<char> {
    match text_of(t, i) {
        Some(s) => s,
        None => Seq::empty(),
    }
}

/// The kind of entity node `i` declares, if any; a method declared outside
/// a class body counts as a function, a `static final` field as a constant.
pub open spec fn java_kind(t: TreeView, i: int, inside_class: bool) -> Option<NodeKind> {
    let k = kind_of(t, i);
    if k == "method_declaration"@ {
        Some(if inside_class { NodeKind::Method } else { NodeKind::Function })
    } else if k == "constructor_declaration"@ {
        Some(NodeKind::Method)
    } else if k == "class_declaration"@ {
        Some(NodeKind::Class)
    } else if k == "interface_declaration"@ {
        Some(NodeKind::Interface)
    } else if k == "enum_declaration"@ {
        Some(NodeKind::Enum)
    } else if k == "import_declaration"@ {
        Some(NodeKind::Import)
    } else if k == "constant_declaration"@ {
        Some(NodeKind::Constant)
    } else if k == "field_declaration"@ {
        if is_static_final(text_or_empty(t, i)) {
            Some(NodeKind::Constant)
        } else {
            None
        }
    } else if k == "package_declaration"@ {
        Some(NodeKind::Module)
    } else {
        None
    }
}

/// Among the nodes `cs`, the first variable declarator with a `name`
/// field, and that name's text.
pub open spec fn declarator_name(t: TreeView, cs: Seq<usize>) -> Option<Option<Seq<char>>>
    decreases cs.len(),
{
    if cs.len() == 0 {
        None
    } else if cs[0] < t.nodes.len() && is_kind(t, cs[0] as int, "variable_declarator"@)
        && field_child(t, cs[0] as int, "name"@) is Some {
        Some(field_text(t, cs[0] as int, "name"@))
    } else {
        declarator_name(t, cs.drop_first())
    }
}

/// The name of the entity of kind `k` at node `i`: imports and packages
/// are named by their whole text, constants by their first declarator.
pub open spec fn java_name(t: TreeView, i: int, k: NodeKind) -> Option<Seq<char>> {
    if k == NodeKind::Import || k == NodeKind::Module {
        trimmed_text(t, i)
    } else if k == NodeKind::Constant {
        match declarator_name(t, kids(t, i)) {
            Some(n) => n,
            None => field_text(t, i, "name"@),
        }
    } else {
        field_text(t, i, "name"@)
    }
}

/// Kinds of node that hold a body of members.
pub open spec fn is_type_declaration(k: Seq<char>) -> bool {
    k == "class_declaration"@ || k == "interface_declaration"@ || k == "enum_declaration"@
}

/// Entities in the children of node `i`, unless `i` declares a type.
pub open spec fn java_rest(t: TreeView, path: Seq<char>, i: int, inside_class: bool) -> Seq<
    NodeValue,
>
    decreases t.nodes.len() - i, kids(t, i).len() + 1, 0int,
{
    if 0 <= i < t.nodes.len() && !is_type_declaration(kind_of(t, i)) {
        java_defs_list(t, path, i, kids(t, i), inside_class)
    } else {
        seq![]
    }
}

/// Entities found in the subtree of node `i`, in document order. A named
/// class, interface or enum is followed by the entities of its body, where
/// methods belong to it; its other children are not entered.
pub open spec fn java_defs(t: TreeView, path: Seq<char>, i: int, inside_class: bool) -> Seq<
    NodeValue,
>
    decreases t.nodes.len() - i, kids(t, i).len() + 1, 1int,
{
    if 0 <= i < t.nodes.len() {
        match java_kind(t, i, inside_class) {
            Some(k) => match java_name(t, i, k) {
                Some(n) => seq![entity_at(t, i, n, k, Language::Java, path)] + if k
                    == NodeKind::Class || k == NodeKind::Interface || k == NodeKind::Enum {
                    match field_child(t, i, "body"@) {
                        Some(b) => if i < b < t.nodes.len() {
                            java_defs_list(t, path, b as int, kids(t, b as int), true)
                        } else {
                            seq![]
                        },
                        None => seq![],
                    }
                } else {
                    java_rest(t, path, i, inside_class)
                },
                None => java_rest(t, path, i, inside_class),
            },
            None => java_rest(t, path, i, inside_class),
        }
    } else {
        seq![]
    }
}

/// Entities found in the subtrees of the children `cs` of node `p`.
pub open spec fn java_defs_list(
    t: TreeView,
    path: Seq<char>,
    p: int,
    cs: Seq<usize>,
    inside_class: bool,
) -> Seq<NodeValue>
    decreases t.nodes.len() - p, cs.len(), 2int,
{
    if cs.len() == 0 {
        seq![]
    } else {
        java_defs_list(t, path, p, cs.drop_last(), inside_class) + if p < cs.last()
            < t.nodes.len() {
            java_defs(t, path, cs.last() as int, inside_class)
        } else {
            seq![]
        }
    }
}

proof fn lemma_java_rest_entities(t: TreeView, path: Seq<char>, i: int, inside_class: bool)
    ensures
        all_entities_of(java_rest(t, path, i, inside_class), t, Language::Java, path),
    decreases t.nodes.len() - i, kids(t, i).len() + 1, 0int,
{
    if 0 <= i < t.nodes.len() && !is_type_declaration(kind_of(t, i)) {
        lemma_java_defs_list_entities(t, path, i, kids(t, i), inside_class);
    }
}

proof fn lemma_java_defs_entities(t: TreeView, path: Seq<char>, i: int, inside_class: bool)
    ensures
        all_entities_of(java_defs(t, path, i, inside_class), t, Language::Java, path),
    decreases t.nodes.len() - i, kids(t, i).len() + 1, 1int,
{
    if 0 <= i < t.nodes.len() {
        lemma_java_rest_entities(t, path, i, inside_class);
        if let Some(k) = java_kind(t, i, inside_class) {
            if let Some(n) = java_name(t, i, k) {
                let inner = if k == NodeKind::Class || k == NodeKind::Interface || k == NodeKind::Enum {
                    match field_child(t, i, "body"@) {
                        Some(b) => if i < b < t.nodes.len() {
                            lemma_java_defs_list_entities(t, path, b as int, kids(t, b as int), true);
                            java_defs_list(t, path, b as int, kids(t, b as int), true)
                        } else {
                            seq![]
                        },
                        None => seq![],
                    }
                } else {
                    java_rest(t, path, i, inside_class)
                };
                lemma_entities_add(seq![entity_at(t, i, n, k, Language::Java, path)], inner, t, Language::Java, path);
            }
        }
    }
}

proof fn lemma_java_defs_list_entities(
    t: TreeView,
    path: Seq<char>,
    p: int,
    cs: Seq<usize>,
    inside_class: bool,
)
    ensures
        all_entities_of(java_defs_list(t, path, p, cs, inside_class), t, Language::Java, path),
    decreases t.nodes.len() - p, cs.len(), 2int,
{
    if cs.len() > 0 {
        let front = java_defs_list(t, path, p, cs.drop_last(), inside_class);
        lemma_java_defs_list_entities(t, path, p, cs.drop_last(), inside_class);
        if p < cs.last() < t.nodes.len() {
            lemma_java_defs_entities(t, path, cs.last() as int, inside_class);
            lemma_entities_add(front, java_defs(t, path, cs.last() as int, inside_class), t, Language::Java, path);
        } else {
            lemma_entities_add(front, seq![], t, Language::Java, path);
        }
    }
}

/// Every entity the Java extractor finds belongs to the file at `path`, is
/// tagged Java, is unsaved, and is not a file node.
pub proof fn lemma_java_entities_of_file(t: TreeView, path: Seq<char>)
    ensures
        all_entities_of(java_entities(t, path), t, Language::Java, path),
{
    if t.nodes.len() > 0 {
        lemma_java_defs_entities(t, path, 0, false);
    }
}

/// The Java entity-kind table: a method declaration declares a method in a
/// class body and a function elsewhere, a constructor a method, class,
/// interface and enum declarations their kinds, an import an import, an
/// interface constant a constant, a field a constant exactly when it is
/// `static final`, and the package declaration a module.
pub proof fn lemma_java_kind_table(t: TreeView, i: int, c: bool)
    ensures
        kind_of(t, i) == "method_declaration"@ ==> java_kind(t, i, true) == Some(NodeKind::Method) && java_kind(t, i, false) == Some(NodeKind::Function),
        kind_of(t, i) == "constructor_declaration"@ ==> java_kind(t, i, c) == Some(NodeKind::Method),
        kind_of(t, i) == "class_declaration"@ ==> java_kind(t, i, c) == Some(NodeKind::Class),
        kind_of(t, i) == "interface_declaration"@ ==> java_kind(t, i, c) == Some(NodeKind::Interface),
        kind_of(t, i) == "enum_declaration"@ ==> java_kind(t, i, c) == Some(NodeKind::Enum),
        kind_of(t, i) == "import_declaration"@ ==> java_kind(t, i, c) == Some(NodeKind::Import),
        kind_of(t, i) == "constant_declaration"@ ==> java_kind(t, i, c) == Some(NodeKind::Constant),
        kind_of(t, i) == "package_declaration"@ ==> java_kind(t, i, c) == Some(NodeKind::Module),
        kind_of(t, i) == "field_declaration"@ ==> (java_kind(t, i, c) == Some(NodeKind::Constant) <==> is_static_final(text_or_empty(t, i))) && (java_kind(t, i, c) is Some ==> java_kind(t, i, c) == Some(NodeKind::Constant)),
{
    reveal_strlit("method_declaration");
    reveal_strlit("constructor_declaration");
    reveal_strlit("class_declaration");
    reveal_strlit("interface_declaration");
    reveal_strlit("enum_declaration");
    reveal_strlit("import_declaration");
    reveal_strlit("constant_declaration");
    reveal_strlit("field_declaration");
    reveal_strlit("package_declaration");
    assert("method_declaration"@ != "constructor_declaration"@) by { assert("method_declaration"@.len() != "constructor_declaration"@.len()); }
    assert("method_declaration"@ != "class_declaration"@) by { assert("method_declaration"@.len() != "class_declaration"@.len()); }
    assert("method_declaration"@ != "interface_declaration"@) by { assert("method_declaration"@.len() != "interface_declaration"@.len()); }
    assert("method_declaration"@ != "enum_declaration"@) by { assert("method_declaration"@.len() != "enum_declaration"@.len()); }
    assert("method_declaration"@ != "import_declaration"@) by { assert("method_declaration"@[0] != "import_declaration"@[0]); }
    assert("method_declaration"@ != "constant_declaration"@) by { assert("method_declaration"@.len() != "constant_declaration"@.len()); }
    assert("method_declaration"@ != "field_declaration"@) by { assert("method_declaration"@.len() != "field_declaration"@.len()); }
    assert("method_declaration"@ != "package_declaration"@) by { assert("method_declaration"@.len() != "package_declaration"@.len()); }
    assert("constructor_declaration"@ != "class_declaration"@) by { assert("constructor_declaration"@.len() != "class_declaration"@.len()); }
    assert("constructor_declaration"@ != "interface_declaration"@) by { assert("constructor_declaration"@.len() != "interface_declaration"@.len()); }
    assert("constructor_declaration"@ != "enum_declaration"@) by { assert("constructor_declaration"@.len() != "enum_declaration"@.len()); }
    assert("constructor_declaration"@ != "import_declaration"@) by { assert("constructor_declaration"@.len() != "import_declaration"@.len()); }
    assert("constructor_declaration"@ != "constant_declaration"@) by { assert("constructor_declaration"@.len() != "constant_declaration"@.len()); }
    assert("constructor_declaration"@ != "field_declaration"@) by { assert("constructor_declaration"@.len() != "field_declaration"@.len()); }
    assert("constructor_declaration"@ != "package_declaration"@) by { assert("constructor_declaration"@.len() != "package_declaration"@.len()); }
    assert("class_declaration"@ != "interface_declaration"@) by { assert("class_declaration"@.len() != "interface_declaration"@.len()); }
    assert("class_declaration"@ != "enum_declaration"@) by { assert("class_declaration"@.len() != "enum_declaration"@.len()); }
    assert("class_declaration"@ != "import_declaration"@) by { assert("class_declaration"@.len() != "import_declaration"@.len()); }
    assert("class_declaration"@ != "constant_declaration"@) by { assert("class_declaration"@.len() != "constant_declaration"@.len()); }
    assert("class_declaration"@ != "field_declaration"@) by { assert("class_declaration"@[0] != "field_declaration"@[0]); }
    assert("class_declaration"@ != "package_declaration"@) by { assert("class_declaration"@.len() != "package_declaration"@.len()); }
    assert("interface_declaration"@ != "enum_declaration"@) by { assert("interface_declaration"@.len() != "enum_declaration"@.len()); }
    assert("interface_declaration"@ != "import_declaration"@) by { assert("interface_declaration"@.len() != "import_declaration"@.len()); }
    assert("interface_declaration"@ != "constant_declaration"@) by { assert("interface_declaration"@.len() != "constant_declaration"@.len()); }
    assert("interface_declaration"@ != "field_declaration"@) by { assert("interface_declaration"@.len() != "field_declaration"@.len()); }
    assert("interface_declaration"@ != "package_declaration"@) by { assert("interface_declaration"@.len() != "package_declaration"@.len()); }
    assert("enum_declaration"@ != "import_declaration"@) by { assert("enum_declaration"@.len() != "import_declaration"@.len()); }
    assert("enum_declaration"@ != "constant_declaration"@) by { assert("enum_declaration"@.len() != "constant_declaration"@.len()); }
    assert("enum_declaration"@ != "field_declaration"@) by { assert("enum_declaration"@.len() != "field_declaration"@.len()); }
    assert("enum_declaration"@ != "package_declaration"@) by { assert("enum_declaration"@.len() != "package_declaration"@.len()); }
    assert("import_declaration"@ != "constant_declaration"@) by { assert("import_declaration"@.len() != "constant_declaration"@.len()); }
    assert("import_declaration"@ != "field_declaration"@) by { assert("import_declaration"@.len() != "field_declaration"@.len()); }
    assert("import_declaration"@ != "package_declaration"@) by { assert("import_declaration"@.len() != "package_declaration"@.len()); }
    assert("constant_declaration"@ != "field_declaration"@) by { assert("constant_declaration"@.len() != "field_declaration"@.len()); }
    assert("constant_declaration"@ != "package_declaration"@) by { assert("constant_declaration"@.len() != "package_declaration"@.len()); }
    assert("field_declaration"@ != "package_declaration"@) by { assert("field_declaration"@.len() != "package_declaration"@.len()); }
}

/// The Java entities of a whole syntax tree.
pub open spec fn java_entities(t: TreeView, path: Seq<char>) -> Seq<NodeValue> {
    if t.nodes.len() > 0 {
        java_defs(t, path, 0, false)
    } else {
        seq![]
    }
}

fn push(out: &mut Vec<Node>, e: Node)
    ensures
        node_values(final(out)@) == node_values(old(out)@).push(e@),
{
    proof {
        lemma_node_values_push(out@, e);
    }
    out.push(e);
}

fn kind_at(d: &Document, i: usize, inside_class: bool) -> (r: Option<NodeKind>)
    requires
        i < d.tree@.nodes.len(),
    ensures
        r == java_kind(d.tree@, i as int, inside_class),
{
    if d.kind_is(i, "method_declaration") {
        Some(
            if inside_class {
                NodeKind::Method
            } else {
                NodeKind::Function
            },
        )
    } else if d.kind_is(i, "constructor_declaration") {
        Some(NodeKind::Method)
    } else if d.kind_is(i, "class_declaration") {
        Some(NodeKind::Class)
    } else if d.kind_is(i, "interface_declaration") {
        Some(NodeKind::Interface)
    } else if d.kind_is(i, "enum_declaration") {
        Some(NodeKind::Enum)
    } else if d.kind_is(i, "import_declaration") {
        Some(NodeKind::Import)
    } else if d.kind_is(i, "constant_declaration") {
        Some(NodeKind::Constant)
    } else if d.kind_is(i, "field_declaration") {
        let text = match d.text(i) {
            Some(s) => s,
            None => String::new(),
        };
        if str_contains(text.as_str(), "static") && str_contains(text.as_str(), "final") {
            Some(NodeKind::Constant)
        } else {
            None
        }
    } else if d.kind_is(i, "package_declaration") {
        Some(NodeKind::Module)
    } else {
        None
    }
}

fn declarator_name_at(d: &Document, i: usize) -> (r: Option<Option<String>>)
    requires
        d.wf(),
        i < d.tree@.nodes.len(),
    ensures
        match (r, declarator_name(d.tree@, kids(d.tree@, i as int))) {
            (Some(a), Some(b)) => opt_text_eq(a, b),
            (None, None) => true,
            _ => false,
        },
{
    let cs = &d.kids[i];
    proof {
        lemma_kids_bounds(d.tree@, i as int);
    }
    let mut m: usize = 0;
    assert(cs@.subrange(0, cs@.len() as int) =~= cs@);
    while m < cs.len()
        invariant
            d.wf(),
            m <= cs@.len(),
            cs@ == kids(d.tree@, i as int),
            forall|x: int| 0 <= x < cs@.len() ==> i < #[trigger] cs@[x] < d.tree@.nodes.len(),
            declarator_name(d.tree@, cs@) == declarator_name(
                d.tree@,
                cs@.subrange(m as int, cs@.len() as int),
            ),
        decreases cs@.len() - m,
    {
        let c = cs[m];
        assert(cs@.subrange(m as int, cs@.len() as int).drop_first() =~= cs@.subrange(
            m + 1,
            cs@.len() as int,
        ));
        if d.kind_is(c, "variable_declarator") {
            match d.field_child(c, "name") {
                Some(n) => {
                    return Some(d.text(n));
                },
                None => {},
            }
        }
        m = m + 1;
    }
    None
}

fn push_named(d: &Document, path: &str, i: usize, k: NodeKind, out: &mut Vec<Node>) -> (named: bool)
    requires
        d.wf(),
        i < d.tree@.nodes.len(),
    ensures
        named == (java_name(d.tree@, i as int, k) is Some),
        node_values(final(out)@) == node_values(old(out)@) + match java_name(d.tree@, i as int, k) {
            Some(n) => seq![entity_at(d.tree@, i as int, n, k, Language::Java, path@)],
            None => seq![],
        },
{
    let ghost start = node_values(out@);
    let name = if k == NodeKind::Import || k == NodeKind::Module {
        d.trimmed_text(i)
    } else if k == NodeKind::Constant {
        match declarator_name_at(d, i) {
            Some(n) => n,
            None => d.field_text(i, "name"),
        }
    } else {
        d.field_text(i, "name")
    };
    match name {
        Some(n) => {
            push(out, d.entity(i, n, k, Language::Java, path));
            true
        },
        None => {
            assert(node_values(out@) =~= start + Seq::<NodeValue>::empty());
            false
        },
    }
}

fn visit_rest(d: &Document, path: &str, i: usize, inside_class: bool, out: &mut Vec<Node>)
    requires
        d.wf(),
        i < d.tree@.nodes.len(),
    ensures
        node_values(final(out)@) == node_values(old(out)@) + java_rest(
            d.tree@,
            path@,
            i as int,
            inside_class,
        ),
    decreases d.tree@.nodes.len() - i, 1nat,
{
    if !(d.kind_is(i, "class_declaration") || d.kind_is(i, "interface_declaration") || d.kind_is(
        i,
        "enum_declaration",
    )) {
        visit_children(d, path, i, inside_class, out);
    } else {
        assert(node_values(out@) =~= node_values(out@) + Seq::<NodeValue>::empty());
    }
}

fn visit(d: &Document, path: &str, i: usize, inside_class: bool, out: &mut Vec<Node>)
    requires
        d.wf(),
        i < d.tree@.nodes.len(),
    ensures
        node_values(final(out)@) == node_values(old(out)@) + java_defs(
            d.tree@,
            path@,
            i as int,
            inside_class,
        ),
    decreases d.tree@.nodes.len() - i, 2nat,
{
    let ghost t = d.tree@;
    let ghost start = node_values(out@);
    match kind_at(d, i, inside_class) {
        Some(k) => {
            if push_named(d, path, i, k, out) {
                if k == NodeKind::Class || k == NodeKind::Interface || k == NodeKind::Enum {
                    match d.field_child(i, "body") {
                        Some(b) => visit_children(d, path, b, true, out),
                        None => {},
                    }
                } else {
                    visit_rest(d, path, i, inside_class, out);
                }
            } else {
                visit_rest(d, path, i, inside_class, out);
            }
        },
        None => visit_rest(d, path, i, inside_class, out),
    }
    assert(node_values(out@) =~= start + java_defs(t, path@, i as int, inside_class));
}

fn visit_children(d: &Document, path: &str, i: usize, inside_class: bool, out: &mut Vec<Node>)
    requires
        d.wf(),
        i < d.tree@.nodes.len(),
    ensures
        node_values(final(out)@) == node_values(old(out)@) + java_defs_list(
            d.tree@,
            path@,
            i as int,
            kids(d.tree@, i as int),
            inside_class,
        ),
    decreases d.tree@.nodes.len() - i, 0nat,
{
    let ghost t = d.tree@;
    let ghost mid = node_values(out@);
    let cs = &d.kids[i];
    proof {
        lemma_kids_bounds(t, i as int);
    }
    let mut m: usize = 0;
    assert(cs@.subrange(0, 0) =~= Seq::<usize>::empty());
    while m < cs.len()
        invariant
            d.wf(),
            t == d.tree@,
            i < t.nodes.len(),
            cs@ == kids(t, i as int),
            forall|x: int| 0 <= x < cs@.len() ==> i < #[trigger] cs@[x] < t.nodes.len(),
            m <= cs@.len(),
            node_values(out@) == mid + java_defs_list(
                t,
                path@,
                i as int,
                cs@.subrange(0, m as int),
                inside_class,
            ),
        decreases cs@.len() - m,
    {
        let c = cs[m];
        visit(d, path, c, inside_class, out);
        assert(cs@.subrange(0, m + 1).drop_last() =~= cs@.subrange(0, m as int));
        assert(node_values(out@) =~= mid + java_defs_list(
            t,
            path@,
            i as int,
            cs@.subrange(0, m + 1),
            inside_class,
        ));
        m = m + 1;
    }
    assert(cs@.subrange(0, cs@.len() as int) =~= cs@);
}

/// The Java entities of a syntax tree, in document order.
pub fn definitions(d: &Document, path: &str) -> (r: Vec<Node>)
    requires
        d.wf(),
    ensures
        node_values(r@) == java_entities(d.tree@, path@),
{
    let mut out: Vec<Node> = Vec::new();
    assert(node_values(out@) =~= Seq::<NodeValue>::empty());
    if d.tree.nodes.len() > 0 {
        visit(d, path, 0, false, &mut out);
        assert(node_values(out@) =~= java_defs(d.tree@, path@, 0, false));
    }
    out
}

/// Builds the parse of `content` at `path` from its Java syntax tree: the
/// file node, the entities in document order, and a `Contains` edge from the
/// file node to each entity.
pub fn parse_tree(path: &str, content: &str, tree: SyntaxTree) -> (r: ParseResult)
    ensures
        parse_value(r, path@, content@, Language::Java, java_entities(tree@, path@)),
{
    let d = Document::new(tree);
    let defs = definitions(&d, path);
    assemble(path, content, Language::Java, defs)
}

/// Parses a Java source file: the file node, its entities and the
/// `Contains` edges from the file node to each entity. Fails only when
/// the tree-sitter grammar cannot be loaded; any text, malformed or not, parses.
pub fn parse_with_edges(path: &str, content: &str) -> (r: Result<ParseResult, DeagleError>)
    ensures
        match syntax_view(Grammar::Java, content@) {
            Some(t) => r matches Ok(p) && parse_value(p, path@, content@, Language::Java, java_entities(t, path@)),
            None => r matches Err(e) && parse_failure(e, path@, Grammar::Java),
        },
        syntax_view(Grammar::Java, content@) matches Some(t) ==> (encode_utf8(content@).len() < u32::MAX
            ==> tree_rows_in_order(t)),
{
    match syntax_tree(Grammar::Java, content) {
        Ok(tree) => Ok(parse_tree(path, content, tree)),
        Err(m) => Err(parse_error(path, m)),
    }
}

/// Parses a Java source file into its nodes (the file node first).
pub fn parse(path: &str, content: &str) -> (r: Result<Vec<Node>, DeagleError>)
    ensures
        match syntax_view(Grammar::Java, content@) {
            Some(t) => r matches Ok(v) && node_values(v@) == seq![file_entity(path@, content@, Language::Java)] + java_entities(t, path@),
            None => r matches Err(e) && parse_failure(e, path@, Grammar::Java),
        },
        syntax_view(Grammar::Java, content@) matches Some(t) ==> (encode_utf8(content@).len() < u32::MAX
            ==> tree_rows_in_order(t)),
{
    match parse_with_edges(path, content) {
        Ok(p) => Ok(p.nodes),
        Err(e) => Err(e),
    }
}

} // verus!
