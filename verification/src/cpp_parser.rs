//! C++: function definitions and prototypes, classes, structs and enums with
//! a body, namespaces, typedefs, templates, `#include`s and `#define`s.
use vstd::prelude::*;
use crate::extract::{all_entities_of, lemma_entities_add, assemble, file_entity, entity_at, field_text, parse_error, parse_failure, parse_value, trimmed_text};
use crate::model::{DeagleError, Language, Node, NodeKind, NodeValue, ParseResult, node_values, lemma_node_values_push};
use crate::grammar::{Grammar, syntax_tree, syntax_view, tree_rows_in_order};
use vstd::utf8::encode_utf8;
use crate::syntax::{Document, SyntaxTree, TreeView, field_child, is_kind, kids, kind_of, lemma_kids_bounds, opt_text_eq, text_of};

verus! {

/// The kind of entity node `i` declares, if any: definitions and
/// prototypes of functions, classes, structs and enums with a body,
/// namespaces, typedefs, `#include`s and `#define`s.
pub open spec fn cpp_kind(t: TreeView, i: int) -> Option<NodeKind> {
    let k = kind_of(t, i);
    if k == "function_definition"@ {
        Some(NodeKind::Function)
    } else if k == "declaration"@ {
        match field_child(t, i, "declarator"@) {
            Some(d) => if kind_of(t, d as int) == "function_declarator"@ {
                Some(NodeKind::Function)
            } else {
                None
            },
            None => None,
        }
    } else if k == "class_specifier"@ {
        if field_child(t, i, "body"@) is Some {
            Some(NodeKind::Class)
        } else {
            None
        }
    } else if k == "struct_specifier"@ {
        if field_child(t, i, "body"@) is Some {
            Some(NodeKind::Struct)
        } else {
            None
        }
    } else if k == "enum_specifier"@ {
        if field_child(t, i, "body"@) is Some {
            Some(NodeKind::Enum)
        } else {
            None
        }
    } else if k == "namespace_definition"@ {
        Some(NodeKind::Module)
    } else if k == "type_definition"@ {
        Some(NodeKind::TypeAlias)
    } else if k == "preproc_include"@ {
        Some(NodeKind::Import)
    } else if k == "preproc_def"@ {
        Some(NodeKind::Constant)
    } else {
        None
    }
}

/// Kinds of node whose text names a function: plain, field and destructor
/// names, and qualified names such as `Class::method`.
pub open spec fn is_name_kind(k: Seq<char>) -> bool {
    k == "identifier"@ || k == "field_identifier"@ || k == "destructor_name"@ || k
        == "qualified_identifier"@ || k == "scoped_identifier"@
}

/// The name a function declarator carries: the text of a name node, else the name under its `declarator` field, else the first name
/// found under its children.
pub open spec fn cpp_fn_name(t: TreeView, n: int) -> Option<Seq<char>>
    decreases t.nodes.len() - n, kids(t, n).len() + 1,
{
    if !(0 <= n < t.nodes.len()) {
        None
    } else if is_name_kind(kind_of(t, n)) {
        text_of(t, n)
    } else {
        match field_child(t, n, "declarator"@) {
            Some(d) => if n < d < t.nodes.len() {
                cpp_fn_name(t, d as int)
            } else {
                None
            },
            None => cpp_fn_name_list(t, n, kids(t, n)),
        }
    }
}

/// The first name found under the nodes `cs`, children of `p`.
pub open spec fn cpp_fn_name_list(t: TreeView, p: int, cs: Seq<usize>) -> Option<Seq<char>>
    decreases t.nodes.len() - p, cs.len(),
{
    if cs.len() == 0 {
        None
    } else {
        let first = if p < cs[0] < t.nodes.len() {
            cpp_fn_name(t, cs[0] as int)
        } else {
            None
        };
        if first is Some {
            first
        } else {
            cpp_fn_name_list(t, p, cs.drop_first())
        }
    }
}

/// The name a `typedef` introduces: its declarator, when that is a type identifier.
pub open spec fn typedef_name(t: TreeView, i: int) -> Option<Seq<char>> {
    match field_child(t, i, "declarator"@) {
        Some(d) => if is_kind(t, d as int, "type_identifier"@) {
            text_of(t, d as int)
        } else {
            None
        },
        None => None,
    }
}

/// The name of the entity of kind `k` that node `i` declares.
pub open spec fn cpp_name(t: TreeView, i: int, k: NodeKind) -> Option<Seq<char>> {
    match k {
        NodeKind::Import => trimmed_text(t, i),
        NodeKind::Function => cpp_fn_name(t, i),
        NodeKind::TypeAlias => typedef_name(t, i),
        _ => field_text(t, i, "name"@),
    }
}

/// The entity node `i` itself yields.
pub open spec fn cpp_entity(t: TreeView, path: Seq<char>, i: int) -> Seq<NodeValue> {
    match cpp_kind(t, i) {
        Some(k) => match cpp_name(t, i, k) {
            Some(n) => seq![entity_at(t, i, n, k, Language::Cpp, path)],
            None => seq![],
        },
        None => seq![],
    }
}

/// Kinds of node a template can declare.
pub open spec fn is_template_item(k: Seq<char>) -> bool {
    k == "class_specifier"@ || k == "struct_specifier"@ || k == "function_definition"@ || k
        == "declaration"@
}

/// First of the nodes `cs` that a template can declare.
pub open spec fn first_template_item(t: TreeView, cs: Seq<usize>) -> Option<usize>
    decreases cs.len(),
{
    if cs.len() == 0 {
        None
    } else if cs[0] < t.nodes.len() && is_template_item(kind_of(t, cs[0] as int)) {
        Some(cs[0])
    } else {
        first_template_item(t, cs.drop_first())
    }
}

/// Kind of entity a template declares through its item `c`: a class for a
/// class or struct, a function otherwise.
pub open spec fn template_kind(t: TreeView, c: int) -> NodeKind {
    if is_kind(t, c, "class_specifier"@) || is_kind(t, c, "struct_specifier"@) {
        NodeKind::Class
    } else {
        NodeKind::Function
    }
}

/// The entity a template `i` declares through its item `c`: named by the
/// item, spanning the whole template.
pub open spec fn template_entity(t: TreeView, path: Seq<char>, i: int, c: int) -> Seq<NodeValue> {
    match cpp_name(t, c, template_kind(t, c)) {
        Some(n) => seq![entity_at(t, i, n, template_kind(t, c), Language::Cpp, path)],
        None => seq![],
    }
}

/// Entities found in the subtree of node `i`, in document order. A
/// template yields the entity of its first item and the entities inside
/// that item; a template without such an item yields nothing.
pub open spec fn cpp_defs(t: TreeView, path: Seq<char>, i: int) -> Seq<NodeValue>
    decreases t.nodes.len() - i, kids(t, i).len() + 1,
{
    if 0 <= i < t.nodes.len() {
        if is_kind(t, i, "template_declaration"@) {
            match first_template_item(t, kids(t, i)) {
                Some(c) => if i < c < t.nodes.len() {
                    template_entity(t, path, i, c as int) + cpp_defs_list(
                        t,
                        path,
                        c as int,
                        kids(t, c as int),
                    )
                } else {
                    seq![]
                },
                None => seq![],
            }
        } else {
            cpp_entity(t, path, i) + cpp_defs_list(t, path, i, kids(t, i))
        }
    } else {
        seq![]
    }
}

/// Entities found in the subtrees of the children `cs` of node `p`.
pub open spec fn cpp_defs_list(t: TreeView, path: Seq<char>, p: int, cs: Seq<usize>) -> Seq<
    NodeValue,
>
    decreases t.nodes.len() - p, cs.len(),
{
    if cs.len() == 0 {
        seq![]
    } else {
        cpp_defs_list(t, path, p, cs.drop_last()) + if p < cs.last() < t.nodes.len() {
            cpp_defs(t, path, cs.last() as int)
        } else {
            seq![]
        }
    }
}

fn kind_at(d: &Document, i: usize) -> (r: Option<NodeKind>)
    requires
        d.wf(),
        i < d.tree@.nodes.len(),
    ensures
        r == cpp_kind(d.tree@, i as int),
{
    if d.kind_is(i, "function_definition") {
        Some(NodeKind::Function)
    } else if d.kind_is(i, "declaration") {
        match d.field_child(i, "declarator") {
            Some(c) => if d.kind_is(c, "function_declarator") {
                Some(NodeKind::Function)
            } else {
                None
            },
            None => None,
        }
    } else if d.kind_is(i, "class_specifier") {
        if d.field_child(i, "body").is_some() {
            Some(NodeKind::Class)
        } else {
            None
        }
    } else if d.kind_is(i, "struct_specifier") {
        if d.field_child(i, "body").is_some() {
            Some(NodeKind::Struct)
        } else {
            None
        }
    } else if d.kind_is(i, "enum_specifier") {
        if d.field_child(i, "body").is_some() {
            Some(NodeKind::Enum)
        } else {
            None
        }
    } else if d.kind_is(i, "namespace_definition") {
        Some(NodeKind::Module)
    } else if d.kind_is(i, "type_definition") {
        Some(NodeKind::TypeAlias)
    } else if d.kind_is(i, "preproc_include") {
        Some(NodeKind::Import)
    } else if d.kind_is(i, "preproc_def") {
        Some(NodeKind::Constant)
    } else {
        None
    }
}

fn fn_name_at(d: &Document, n: usize) -> (r: Option<String>)
    requires
        d.wf(),
        n < d.tree@.nodes.len(),
    ensures
        opt_text_eq(r, cpp_fn_name(d.tree@, n as int)),
    decreases d.tree@.nodes.len() - n,
{
    let ghost t = d.tree@;
    if d.kind_is(n, "identifier") || d.kind_is(n, "field_identifier") || d.kind_is(
        n,
        "destructor_name",
    ) || d.kind_is(n, "qualified_identifier") || d.kind_is(n, "scoped_identifier") {
        return d.text(n);
    }
    match d.field_child(n, "declarator") {
        Some(x) => fn_name_at(d, x),
        None => {
            let cs = &d.kids[n];
            proof {
                lemma_kids_bounds(t, n as int);
            }
            let mut m: usize = 0;
            assert(cs@.subrange(0, cs@.len() as int) =~= cs@);
            assert(cpp_fn_name(t, n as int) == cpp_fn_name_list(t, n as int, cs@));
            while m < cs.len()
                invariant
                    cpp_fn_name(t, n as int) == cpp_fn_name_list(t, n as int, cs@),
                    d.wf(),
                    t == d.tree@,
                    n < t.nodes.len(),
                    cs@ == kids(t, n as int),
                    forall|x: int| 0 <= x < cs@.len() ==> n < #[trigger] cs@[x] < t.nodes.len(),
                    m <= cs@.len(),
                    cpp_fn_name_list(t, n as int, cs@) == cpp_fn_name_list(
                        t,
                        n as int,
                        cs@.subrange(m as int, cs@.len() as int),
                    ),
                decreases cs@.len() - m,
            {
                let c = cs[m];
                assert(cs@.subrange(m as int, cs@.len() as int).drop_first() =~= cs@.subrange(
                    m + 1,
                    cs@.len() as int,
                ));
                let found = fn_name_at(d, c);
                if found.is_some() {
                    assert(cs@.subrange(m as int, cs@.len() as int)[0] == c);
                    return found;
                }
                m = m + 1;
            }
            None
        },
    }
}

fn name_at(d: &Document, i: usize, k: NodeKind) -> (r: Option<String>)
    requires
        d.wf(),
        i < d.tree@.nodes.len(),
    ensures
        opt_text_eq(r, cpp_name(d.tree@, i as int, k)),
{
    match k {
        NodeKind::Import => d.trimmed_text(i),
        NodeKind::Function => fn_name_at(d, i),
        NodeKind::TypeAlias => match d.field_child(i, "declarator") {
            Some(x) => if d.kind_is(x, "type_identifier") {
                d.text(x)
            } else {
                None
            },
            None => None,
        },
        _ => d.field_text(i, "name"),
    }
}

fn template_item_at(d: &Document, i: usize) -> (r: Option<usize>)
    requires
        d.wf(),
        i < d.tree@.nodes.len(),
    ensures
        r == first_template_item(d.tree@, kids(d.tree@, i as int)),
        r matches Some(c) ==> i < c < d.tree@.nodes.len(),
{
    let cs = &d.kids[i];
    proof {
        lemma_kids_bounds(d.tree@, i as int);
    }
    let mut m: usize = 0;
    assert(cs@.subrange(0, cs@.len() as int) =~= cs@);
    while m < cs.len()
        invariant
            m <= cs@.len(),
            cs@ == kids(d.tree@, i as int),
            forall|x: int| 0 <= x < cs@.len() ==> i < #[trigger] cs@[x] < d.tree@.nodes.len(),
            first_template_item(d.tree@, cs@) == first_template_item(
                d.tree@,
                cs@.subrange(m as int, cs@.len() as int),
            ),
        decreases cs@.len() - m,
    {
        let c = cs[m];
        assert(cs@.subrange(m as int, cs@.len() as int).drop_first() =~= cs@.subrange(
            m + 1,
            cs@.len() as int,
        ));
        if d.kind_is(c, "class_specifier") || d.kind_is(c, "struct_specifier") || d.kind_is(
            c,
            "function_definition",
        ) || d.kind_is(c, "declaration") {
            return Some(c);
        }
        m = m + 1;
    }
    None
}

fn push(out: &mut Vec<Node>, e: Node)
    ensures
        node_values(final(out)@) == node_values(old(out)@).push(e@),
{
    proof {
        lemma_node_values_push(out@, e);
    }
    out.push(e);
}

fn visit(d: &Document, path: &str, i: usize, out: &mut Vec<Node>)
    requires
        d.wf(),
        i < d.tree@.nodes.len(),
    ensures
        node_values(final(out)@) == node_values(old(out)@) + cpp_defs(d.tree@, path@, i as int),
    decreases d.tree@.nodes.len() - i, 1nat,
{
    let ghost t = d.tree@;
    let ghost start = node_values(out@);
    if d.kind_is(i, "template_declaration") {
        match template_item_at(d, i) {
            Some(c) => {
                let k = if d.kind_is(c, "class_specifier") || d.kind_is(c, "struct_specifier") {
                    NodeKind::Class
                } else {
                    NodeKind::Function
                };
                match name_at(d, c, k) {
                    Some(n) => push(out, d.entity(i, n, k, Language::Cpp, path)),
                    None => {},
                }
                assert(node_values(out@) =~= start + template_entity(t, path@, i as int, c as int));
                visit_children(d, path, c, out);
            },
            None => {},
        }
    } else {
        match kind_at(d, i) {
            Some(k) => match name_at(d, i, k) {
                Some(n) => push(out, d.entity(i, n, k, Language::Cpp, path)),
                None => {},
            },
            None => {},
        }
        assert(node_values(out@) == start + cpp_entity(t, path@, i as int));
        visit_children(d, path, i, out);
    }
    assert(node_values(out@) =~= start + cpp_defs(t, path@, i as int));
}

fn visit_children(d: &Document, path: &str, i: usize, out: &mut Vec<Node>)
    requires
        d.wf(),
        i < d.tree@.nodes.len(),
    ensures
        node_values(final(out)@) == node_values(old(out)@) + cpp_defs_list(
            d.tree@,
            path@,
            i as int,
            kids(d.tree@, i as int),
        ),
    decreases d.tree@.nodes.len() - i, 0nat,
{
    let ghost t = d.tree@;
    let ghost mid = node_values(out@);
    let cs = &d.kids[i];
    proof {
        lemma_kids_bounds(t, i as int);
    }
    let mut m: usize = 0;
    assert(cs@.subrange(0, 0) =~= Seq::<usize>::empty());
    while m < cs.len()
        invariant
            d.wf(),
            t == d.tree@,
            i < t.nodes.len(),
            cs@ == kids(t, i as int),
            forall|x: int| 0 <= x < cs@.len() ==> i < #[trigger] cs@[x] < t.nodes.len(),
            m <= cs@.len(),
            node_values(out@) == mid + cpp_defs_list(t, path@, i as int, cs@.subrange(0, m as int)),
        decreases cs@.len() - m,
    {
        let c = cs[m];
        visit(d, path, c, out);
        assert(cs@.subrange(0, m + 1).drop_last() =~= cs@.subrange(0, m as int));
        assert(node_values(out@) =~= mid + cpp_defs_list(
            t,
            path@,
            i as int,
            cs@.subrange(0, m + 1),
        ));
        m = m + 1;
    }
    assert(cs@.subrange(0, cs@.len() as int) =~= cs@);
}

/// The C++ entities of a syntax tree, in document order.
pub fn definitions(d: &Document, path: &str) -> (r: Vec<Node>)
    requires
        d.wf(),
    ensures
        node_values(r@) == if d.tree@.nodes.len() > 0 {
            cpp_defs(d.tree@, path@, 0)
        } else {
            seq![]
        },
{
    let mut out: Vec<Node> = Vec::new();
    if d.tree.nodes.len() > 0 {
        visit(d, path, 0, &mut out);
        assert(node_values(Seq::<Node>::empty()) =~= Seq::<NodeValue>::empty());
        assert(node_values(out@) =~= cpp_defs(d.tree@, path@, 0));
    } else {
        assert(node_values(out@) =~= Seq::<NodeValue>::empty());
    }
    out
}

proof fn lemma_cpp_defs_entities(t: TreeView, path: Seq<char>, i: int)
    ensures
        all_entities_of(cpp_defs(t, path, i), t, Language::Cpp, path),
    decreases t.nodes.len() - i, kids(t, i).len() + 1,
{
    if 0 <= i < t.nodes.len() {
        if is_kind(t, i, "template_declaration"@) {
            if let Some(c) = first_template_item(t, kids(t, i)) {
                if i < c < t.nodes.len() {
                    lemma_cpp_defs_list_entities(t, path, c as int, kids(t, c as int));
                    lemma_entities_add(
                        template_entity(t, path, i, c as int),
                        cpp_defs_list(t, path, c as int, kids(t, c as int)),
                        t,
                        Language::Cpp,
                        path,
                    );
                }
            }
        } else {
            lemma_cpp_defs_list_entities(t, path, i, kids(t, i));
            lemma_entities_add(cpp_entity(t, path, i), cpp_defs_list(t, path, i, kids(t, i)), t, Language::Cpp, path);
        }
    }
}

proof fn lemma_cpp_defs_list_entities(t: TreeView, path: Seq<char>, p: int, cs: Seq<usize>)
    ensures
        all_entities_of(cpp_defs_list(t, path, p, cs), t, Language::Cpp, path),
    decreases t.nodes.len() - p, cs.len(),
{
    if cs.len() > 0 {
        lemma_cpp_defs_list_entities(t, path, p, cs.drop_last());
        if p < cs.last() < t.nodes.len() {
            lemma_cpp_defs_entities(t, path, cs.last() as int);
            lemma_entities_add(cpp_defs_list(t, path, p, cs.drop_last()), cpp_defs(t, path, cs.last() as int), t, Language::Cpp, path);
        } else {
            lemma_entities_add(cpp_defs_list(t, path, p, cs.drop_last()), seq![], t, Language::Cpp, path);
        }
    }
}

/// Every entity the C++ extractor finds belongs to the file at `path`, is
/// tagged C++, is unsaved, and is not a file node.
pub proof fn lemma_cpp_entities_of_file(t: TreeView, path: Seq<char>)
    ensures
        all_entities_of(cpp_entities(t, path), t, Language::Cpp, path),
{
    if t.nodes.len() > 0 {
        lemma_cpp_defs_entities(t, path, 0);
    }
}

/// The C++ entity-kind table: a function definition or a function
/// prototype declares a function, a class, struct or enum specifier with a
/// body its kind, a namespace a module, a typedef a type alias, an
/// `#include` an import and a `#define` a constant; a template declares a
/// class through a class or struct, a function through anything else.
pub proof fn lemma_cpp_kind_table(t: TreeView, i: int, c: int)
    ensures
        kind_of(t, i) == "function_definition"@ ==> cpp_kind(t, i) == Some(NodeKind::Function),
        kind_of(t, i) == "namespace_definition"@ ==> cpp_kind(t, i) == Some(NodeKind::Module),
        kind_of(t, i) == "type_definition"@ ==> cpp_kind(t, i) == Some(NodeKind::TypeAlias),
        kind_of(t, i) == "preproc_include"@ ==> cpp_kind(t, i) == Some(NodeKind::Import),
        kind_of(t, i) == "preproc_def"@ ==> cpp_kind(t, i) == Some(NodeKind::Constant),
        kind_of(t, i) == "class_specifier"@ ==> cpp_kind(t, i) == (if field_child(t, i, "body"@) is Some { Some(NodeKind::Class) } else { None }),
        kind_of(t, i) == "struct_specifier"@ ==> cpp_kind(t, i) == (if field_child(t, i, "body"@) is Some { Some(NodeKind::Struct) } else { None }),
        kind_of(t, i) == "enum_specifier"@ ==> cpp_kind(t, i) == (if field_child(t, i, "body"@) is Some { Some(NodeKind::Enum) } else { None }),
        kind_of(t, i) == "declaration"@ ==> cpp_kind(t, i) == (if field_child(t, i, "declarator"@) matches Some(d) && kind_of(t, d as int) == "function_declarator"@ { Some(NodeKind::Function) } else { None }),
        is_kind(t, c, "class_specifier"@) || is_kind(t, c, "struct_specifier"@) ==> template_kind(t, c) == NodeKind::Class,
        is_kind(t, c, "function_definition"@) || is_kind(t, c, "declaration"@) ==> template_kind(t, c) == NodeKind::Function,
{
    reveal_strlit("function_definition");
    reveal_strlit("declaration");
    reveal_strlit("declarator");
    reveal_strlit("function_declarator");
    reveal_strlit("class_specifier");
    reveal_strlit("body");
    reveal_strlit("struct_specifier");
    reveal_strlit("enum_specifier");
    reveal_strlit("namespace_definition");
    reveal_strlit("type_definition");
    reveal_strlit("preproc_include");
    reveal_strlit("preproc_def");
    assert("function_definition"@ != "declaration"@) by { assert("function_definition"@.len() != "declaration"@.len()); }
    assert("function_definition"@ != "declarator"@) by { assert("function_definition"@.len() != "declarator"@.len()); }
    assert("function_definition"@ != "function_declarator"@) by { assert("function_definition"@[11] != "function_declarator"@[11]); }
    assert("function_definition"@ != "class_specifier"@) by { assert("function_definition"@.len() != "class_specifier"@.len()); }
    assert("function_definition"@ != "body"@) by { assert("function_definition"@.len() != "body"@.len()); }
    assert("function_definition"@ != "struct_specifier"@) by { assert("function_definition"@.len() != "struct_specifier"@.len()); }
    assert("function_definition"@ != "enum_specifier"@) by { assert("function_definition"@.len() != "enum_specifier"@.len()); }
    assert("function_definition"@ != "namespace_definition"@) by { assert("function_definition"@.len() != "namespace_definition"@.len()); }
    assert("function_definition"@ != "type_definition"@) by { assert("function_definition"@.len() != "type_definition"@.len()); }
    assert("function_definition"@ != "preproc_include"@) by { assert("function_definition"@.len() != "preproc_include"@.len()); }
    assert("function_definition"@ != "preproc_def"@) by { assert("function_definition"@.len() != "preproc_def"@.len()); }
    assert("declaration"@ != "declarator"@) by { assert("declaration"@.len() != "declarator"@.len()); }
    assert("declaration"@ != "function_declarator"@) by { assert("declaration"@.len() != "function_declarator"@.len()); }
    assert("declaration"@ != "class_specifier"@) by { assert("declaration"@.len() != "class_specifier"@.len()); }
    assert("declaration"@ != "body"@) by { assert("declaration"@.len() != "body"@.len()); }
    assert("declaration"@ != "struct_specifier"@) by { assert("declaration"@.len() != "struct_specifier"@.len()); }
    assert("declaration"@ != "enum_specifier"@) by { assert("declaration"@.len() != "enum_specifier"@.len()); }
    assert("declaration"@ != "namespace_definition"@) by { assert("declaration"@.len() != "namespace_definition"@.len()); }
    assert("declaration"@ != "type_definition"@) by { assert("declaration"@.len() != "type_definition"@.len()); }
    assert("declaration"@ != "preproc_include"@) by { assert("declaration"@.len() != "preproc_include"@.len()); }
    assert("declaration"@ != "preproc_def"@) by { assert("declaration"@[0] != "preproc_def"@[0]); }
    assert("declarator"@ != "function_declarator"@) by { assert("declarator"@.len() != "function_declarator"@.len()); }
    assert("declarator"@ != "class_specifier"@) by { assert("declarator"@.len() != "class_specifier"@.len()); }
    assert("declarator"@ != "body"@) by { assert("declarator"@.len() != "body"@.len()); }
    assert("declarator"@ != "struct_specifier"@) by { assert("declarator"@.len() != "struct_specifier"@.len()); }
    assert("declarator"@ != "enum_specifier"@) by { assert("declarator"@.len() != "enum_specifier"@.len()); }
    assert("declarator"@ != "namespace_definition"@) by { assert("declarator"@.len() != "namespace_definition"@.len()); }
    assert("declarator"@ != "type_definition"@) by { assert("declarator"@.len() != "type_definition"@.len()); }
    assert("declarator"@ != "preproc_include"@) by { assert("declarator"@.len() != "preproc_include"@.len()); }
    assert("declarator"@ != "preproc_def"@) by { assert("declarator"@.len() != "preproc_def"@.len()); }
    assert("function_declarator"@ != "class_specifier"@) by { assert("function_declarator"@.len() != "class_specifier"@.len()); }
    assert("function_declarator"@ != "body"@) by { assert("function_declarator"@.len() != "body"@.len()); }
    assert("function_declarator"@ != "struct_specifier"@) by { assert("function_declarator"@.len() != "struct_specifier"@.len()); }
    assert("function_declarator"@ != "enum_specifier"@) by { assert("function_declarator"@.len() != "enum_specifier"@.len()); }
    assert("function_declarator"@ != "namespace_definition"@) by { assert("function_declarator"@.len() != "namespace_definition"@.len()); }
    assert("function_declarator"@ != "type_definition"@) by { assert("function_declarator"@.len() != "type_definition"@.len()); }
    assert("function_declarator"@ != "preproc_include"@) by { assert("function_declarator"@.len() != "preproc_include"@.len()); }
    assert("function_declarator"@ != "preproc_def"@) by { assert("function_declarator"@.len() != "preproc_def"@.len()); }
    assert("class_specifier"@ != "body"@) by { assert("class_specifier"@.len() != "body"@.len()); }
    assert("class_specifier"@ != "struct_specifier"@) by { assert("class_specifier"@.len() != "struct_specifier"@.len()); }
    assert("class_specifier"@ != "enum_specifier"@) by { assert("class_specifier"@.len() != "enum_specifier"@.len()); }
    assert("class_specifier"@ != "namespace_definition"@) by { assert("class_specifier"@.len() != "namespace_definition"@.len()); }
    assert("class_specifier"@ != "type_definition"@) by { assert("class_specifier"@[0] != "type_definition"@[0]); }
    assert("class_specifier"@ != "preproc_include"@) by { assert("class_specifier"@[0] != "preproc_include"@[0]); }
    assert("class_specifier"@ != "preproc_def"@) by { assert("class_specifier"@.len() != "preproc_def"@.len()); }
    assert("body"@ != "struct_specifier"@) by { assert("body"@.len() != "struct_specifier"@.len()); }
    assert("body"@ != "enum_specifier"@) by { assert("body"@.len() != "enum_specifier"@.len()); }
    assert("body"@ != "namespace_definition"@) by { assert("body"@.len() != "namespace_definition"@.len()); }
    assert("body"@ != "type_definition"@) by { assert("body"@.len() != "type_definition"@.len()); }
    assert("body"@ != "preproc_include"@) by { assert("body"@.len() != "preproc_include"@.len()); }
    assert("body"@ != "preproc_def"@) by { assert("body"@.len() != "preproc_def"@.len()); }
    assert("struct_specifier"@ != "enum_specifier"@) by { assert("struct_specifier"@.len() != "enum_specifier"@.len()); }
    assert("struct_specifier"@ != "namespace_definition"@) by { assert("struct_specifier"@.len() != "namespace_definition"@.len()); }
    assert("struct_specifier"@ != "type_definition"@) by { assert("struct_specifier"@.len() != "type_definition"@.len()); }
    assert("struct_specifier"@ != "preproc_include"@) by { assert("struct_specifier"@.len() != "preproc_include"@.len()); }
    assert("struct_specifier"@ != "preproc_def"@) by { assert("struct_specifier"@.len() != "preproc_def"@.len()); }
    assert("enum_specifier"@ != "namespace_definition"@) by { assert("enum_specifier"@.len() != "namespace_definition"@.len()); }
    assert("enum_specifier"@ != "type_definition"@) by { assert("enum_specifier"@.len() != "type_definition"@.len()); }
    assert("enum_specifier"@ != "preproc_include"@) by { assert("enum_specifier"@.len() != "preproc_include"@.len()); }
    assert("enum_specifier"@ != "preproc_def"@) by { assert("enum_specifier"@.len() != "preproc_def"@.len()); }
    assert("namespace_definition"@ != "type_definition"@) by { assert("namespace_definition"@.len() != "type_definition"@.len()); }
    assert("namespace_definition"@ != "preproc_include"@) by { assert("namespace_definition"@.len() != "preproc_include"@.len()); }
    assert("namespace_definition"@ != "preproc_def"@) by { assert("namespace_definition"@.len() != "preproc_def"@.len()); }
    assert("type_definition"@ != "preproc_include"@) by { assert("type_definition"@[0] != "preproc_include"@[0]); }
    assert("type_definition"@ != "preproc_def"@) by { assert("type_definition"@.len() != "preproc_def"@.len()); }
    assert("preproc_include"@ != "preproc_def"@) by { assert("preproc_include"@.len() != "preproc_def"@.len()); }
}

/// The C++ entities of a whole syntax tree.
pub open spec fn cpp_entities(t: TreeView, path: Seq<char>) -> Seq<NodeValue> {
    if t.nodes.len() > 0 {
        cpp_defs(t, path, 0)
    } else {
        seq![]
    }
}

/// Builds the parse of `content` at `path` from its C++ syntax tree: the file
/// node, the entities in document order, and a `Contains` edge from the file
/// node to each entity.
pub fn parse_tree(path: &str, content: &str, tree: SyntaxTree) -> (r: ParseResult)
    ensures
        parse_value(r, path@, content@, Language::Cpp, cpp_entities(tree@, path@)),
{
    let d = Document::new(tree);
    let defs = definitions(&d, path);
    assemble(path, content, Language::Cpp, defs)
}

/// Parses a C++ source file: the file node, its entities and the `Contains`
/// edges from the file node to each entity. Fails only when the
/// tree-sitter grammar cannot be loaded; any text, malformed or not, parses.
pub fn parse_with_edges(path: &str, content: &str) -> (r: Result<ParseResult, DeagleError>)
    ensures
        match syntax_view(Grammar::Cpp, content@) {
            Some(t) => r matches Ok(p) && parse_value(p, path@, content@, Language::Cpp, cpp_entities(t, path@)),
            None => r matches Err(e) && parse_failure(e, path@, Grammar::Cpp),
        },
        syntax_view(Grammar::Cpp, content@) matches Some(t) ==> (encode_utf8(content@).len() < u32::MAX
            ==> tree_rows_in_order(t)),
{
    match syntax_tree(Grammar::Cpp, content) {
        Ok(tree) => Ok(parse_tree(path, content, tree)),
        Err(m) => Err(parse_error(path, m)),
    }
}

/// Parses a C++ source file into its nodes (the file node first).
pub fn parse(path: &str, content: &str) -> (r: Result<Vec<Node>, DeagleError>)
    ensures
        match syntax_view(Grammar::Cpp, content@) {
            Some(t) => r matches Ok(v) && node_values(v@) == seq![file_entity(path@, content@, Language::Cpp)] + cpp_entities(t, path@),
            None => r matches Err(e) && parse_failure(e, path@, Grammar::Cpp),
        },
        syntax_view(Grammar::Cpp, content@) matches Some(t) ==> (encode_utf8(content@).len() < u32::MAX
            ==> tree_rows_in_order(t)),
{
    match parse_with_edges(path, content) {
        Ok(p) => Ok(p.nodes),
        Err(e) => Err(e),
    }
}
} // verus!
