//! C: function definitions and prototypes, structs and enums with a body,
//! typedefs, `#include`s and `#define`s.
use vstd::prelude::*;
use crate::extract::{all_entities_of, lemma_entities_add, assemble, file_entity, entity_at, field_text, parse_error, parse_failure, parse_value, trimmed_text};
use crate::model::{DeagleError, Language, Node, NodeKind, NodeValue, ParseResult, node_values, lemma_node_values_push};
use crate::grammar::{Grammar, syntax_tree, syntax_view, tree_rows_in_order};
use vstd::utf8::encode_utf8;
use crate::syntax::{Document, SyntaxTree, TreeView, field_child, is_kind, kids, kind_of, lemma_kids_bounds, opt_text_eq, text_of};

verus! {

/// The kind of entity node `i` declares, if any: definitions and
/// prototypes of functions, structs and enums with a body, typedefs,
/// `#include`s and `#define`s.
pub open spec fn c_kind(t: TreeView, i: int) -> Option<NodeKind> {
    let k = kind_of(t, i);
    if k == "function_definition"@ {
        Some(NodeKind::Function)
    } else if k == "declaration"@ {
        match field_child(t, i, "declarator"@) {
            Some(d) => if kind_of(t, d as int) == "function_declarator"@ {
                Some(NodeKind::Function)
            } else {
                None
            },
            None => None,
        }
    } else if k == "struct_specifier"@ {
        if field_child(t, i, "body"@) is Some {
            Some(NodeKind::Struct)
        } else {
            None
        }
    } else if k == "enum_specifier"@ {
        if field_child(t, i, "body"@) is Some {
            Some(NodeKind::Enum)
        } else {
            None
        }
    } else if k == "type_definition"@ {
        Some(NodeKind::TypeAlias)
    } else if k == "preproc_include"@ {
        Some(NodeKind::Import)
    } else if k == "preproc_def"@ {
        Some(NodeKind::Constant)
    } else {
        None
    }
}

/// The name a function declarator carries: the text of an `identifier`
/// node, else the name under its `declarator` field, else the first name
/// found under its children.
pub open spec fn c_fn_name(t: TreeView, n: int) -> Option<Seq<char>>
    decreases t.nodes.len() - n, kids(t, n).len() + 1,
{
    if !(0 <= n < t.nodes.len()) {
        None
    } else if is_kind(t, n, "identifier"@) {
        text_of(t, n)
    } else {
        match field_child(t, n, "declarator"@) {
            Some(d) => if n < d < t.nodes.len() {
                c_fn_name(t, d as int)
            } else {
                None
            },
            None => c_fn_name_list(t, n, kids(t, n)),
        }
    }
}

/// The first name found under the nodes `cs`, children of `p`.
pub open spec fn c_fn_name_list(t: TreeView, p: int, cs: Seq<usize>) -> Option<Seq<char>>
    decreases t.nodes.len() - p, cs.len(),
{
    if cs.len() == 0 {
        None
    } else {
        let first = if p < cs[0] < t.nodes.len() {
            c_fn_name(t, cs[0] as int)
        } else {
            None
        };
        if first is Some {
            first
        } else {
            c_fn_name_list(t, p, cs.drop_first())
        }
    }
}

/// The name a `typedef` introduces: its declarator, when that is a type identifier.
pub open spec fn typedef_name(t: TreeView, i: int) -> Option<Seq<char>> {
    match field_child(t, i, "declarator"@) {
        Some(d) => if is_kind(t, d as int, "type_identifier"@) {
            text_of(t, d as int)
        } else {
            None
        },
        None => None,
    }
}

/// The name of the entity of kind `k` that node `i` declares.
pub open spec fn c_name(t: TreeView, i: int, k: NodeKind) -> Option<Seq<char>> {
    match k {
        NodeKind::Import => trimmed_text(t, i),
        NodeKind::Function => c_fn_name(t, i),
        NodeKind::TypeAlias => typedef_name(t, i),
        _ => field_text(t, i, "name"@),
    }
}

/// The entity node `i` itself yields.
pub open spec fn c_entity(t: TreeView, path: Seq<char>, i: int) -> Seq<NodeValue> {
    match c_kind(t, i) {
        Some(k) => match c_name(t, i, k) {
            Some(n) => seq![entity_at(t, i, n, k, Language::C, path)],
            None => seq![],
        },
        None => seq![],
    }
}

/// Entities found in the subtree of node `i`, in document order.
pub open spec fn c_defs(t: TreeView, path: Seq<char>, i: int) -> Seq<NodeValue>
    decreases t.nodes.len() - i, kids(t, i).len() + 1,
{
    if 0 <= i < t.nodes.len() {
        c_entity(t, path, i) + c_defs_list(t, path, i, kids(t, i))
    } else {
        seq![]
    }
}

/// Entities found in the subtrees of the children `cs` of node `p`.
pub open spec fn c_defs_list(t: TreeView, path: Seq<char>, p: int, cs: Seq<usize>) -> Seq<
    NodeValue,
>
    decreases t.nodes.len() - p, cs.len(),
{
    if cs.len() == 0 {
        seq![]
    } else {
        c_defs_list(t, path, p, cs.drop_last()) + if p < cs.last() < t.nodes.len() {
            c_defs(t, path, cs.last() as int)
        } else {
            seq![]
        }
    }
}

fn kind_at(d: &Document, i: usize) -> (r: Option<NodeKind>)
    requires
        d.wf(),
        i < d.tree@.nodes.len(),
    ensures
        r == c_kind(d.tree@, i as int),
{
    if d.kind_is(i, "function_definition") {
        Some(NodeKind::Function)
    } else if d.kind_is(i, "declaration") {
        match d.field_child(i, "declarator") {
            Some(c) => if d.kind_is(c, "function_declarator") {
                Some(NodeKind::Function)
            } else {
                None
            },
            None => None,
        }
    } else if d.kind_is(i, "struct_specifier") {
        if d.field_child(i, "body").is_some() {
            Some(NodeKind::Struct)
        } else {
            None
        }
    } else if d.kind_is(i, "enum_specifier") {
        if d.field_child(i, "body").is_some() {
            Some(NodeKind::Enum)
        } else {
            None
        }
    } else if d.kind_is(i, "type_definition") {
        Some(NodeKind::TypeAlias)
    } else if d.kind_is(i, "preproc_include") {
        Some(NodeKind::Import)
    } else if d.kind_is(i, "preproc_def") {
        Some(NodeKind::Constant)
    } else {
        None
    }
}

fn fn_name_at(d: &Document, n: usize) -> (r: Option<String>)
    requires
        d.wf(),
        n < d.tree@.nodes.len(),
    ensures
        opt_text_eq(r, c_fn_name(d.tree@, n as int)),
    decreases d.tree@.nodes.len() - n,
{
    let ghost t = d.tree@;
    if d.kind_is(n, "identifier") {
        return d.text(n);
    }
    match d.field_child(n, "declarator") {
        Some(x) => fn_name_at(d, x),
        None => {
            let cs = &d.kids[n];
            proof {
                lemma_kids_bounds(t, n as int);
            }
            let mut m: usize = 0;
            assert(cs@.subrange(0, cs@.len() as int) =~= cs@);
            assert(c_fn_name(t, n as int) == c_fn_name_list(t, n as int, cs@));
            while m < cs.len()
                invariant
                    c_fn_name(t, n as int) == c_fn_name_list(t, n as int, cs@),
                    d.wf(),
                    t == d.tree@,
                    n < t.nodes.len(),
                    cs@ == kids(t, n as int),
                    forall|x: int| 0 <= x < cs@.len() ==> n < #[trigger] cs@[x] < t.nodes.len(),
                    m <= cs@.len(),
                    c_fn_name_list(t, n as int, cs@) == c_fn_name_list(
                        t,
                        n as int,
                        cs@.subrange(m as int, cs@.len() as int),
                    ),
                decreases cs@.len() - m,
            {
                let c = cs[m];
                assert(cs@.subrange(m as int, cs@.len() as int).drop_first() =~= cs@.subrange(
                    m + 1,
                    cs@.len() as int,
                ));
                let found = fn_name_at(d, c);
                if found.is_some() {
                    assert(cs@.subrange(m as int, cs@.len() as int)[0] == c);
                    return found;
                }
                m = m + 1;
            }
            None
        },
    }
}

fn name_at(d: &Document, i: usize, k: NodeKind) -> (r: Option<String>)
    requires
        d.wf(),
        i < d.tree@.nodes.len(),
    ensures
        opt_text_eq(r, c_name(d.tree@, i as int, k)),
{
    match k {
        NodeKind::Import => d.trimmed_text(i),
        NodeKind::Function => fn_name_at(d, i),
        NodeKind::TypeAlias => match d.field_child(i, "declarator") {
            Some(x) => if d.kind_is(x, "type_identifier") {
                d.text(x)
            } else {
                None
            },
            None => None,
        },
        _ => d.field_text(i, "name"),
    }
}

fn visit(d: &Document, path: &str, i: usize, out: &mut Vec<Node>)
    requires
        d.wf(),
        i < d.tree@.nodes.len(),
    ensures
        node_values(final(out)@) == node_values(old(out)@) + c_defs(d.tree@, path@, i as int),
    decreases d.tree@.nodes.len() - i,
{
    let ghost t = d.tree@;
    let ghost start = node_values(out@);
    match kind_at(d, i) {
        Some(k) => match name_at(d, i, k) {
            Some(n) => {
                let e = d.entity(i, n, k, Language::C, path);
                proof {
                    lemma_node_values_push(out@, e);
                }
                out.push(e);
            },
            None => {},
        },
        None => {},
    }
    let ghost mid = node_values(out@);
    assert(mid == start + c_entity(t, path@, i as int));
    let cs = &d.kids[i];
    proof {
        lemma_kids_bounds(t, i as int);
    }
    let mut m: usize = 0;
    assert(cs@.subrange(0, 0) =~= Seq::<usize>::empty());
    while m < cs.len()
        invariant
            d.wf(),
            t == d.tree@,
            i < t.nodes.len(),
            cs@ == kids(t, i as int),
            forall|x: int| 0 <= x < cs@.len() ==> i < #[trigger] cs@[x] < t.nodes.len(),
            m <= cs@.len(),
            node_values(out@) == mid + c_defs_list(t, path@, i as int, cs@.subrange(0, m as int)),
        decreases cs@.len() - m,
    {
        let c = cs[m];
        let ghost before = node_values(out@);
        visit(d, path, c, out);
        assert(cs@.subrange(0, m + 1).drop_last() =~= cs@.subrange(0, m as int));
        assert(c_defs_list(t, path@, i as int, cs@.subrange(0, m + 1)) == c_defs_list(
            t,
            path@,
            i as int,
            cs@.subrange(0, m as int),
        ) + c_defs(t, path@, c as int));
        assert(node_values(out@) =~= mid + c_defs_list(
            t,
            path@,
            i as int,
            cs@.subrange(0, m + 1),
        ));
        m = m + 1;
    }
    assert(cs@.subrange(0, cs@.len() as int) =~= cs@);
    assert(node_values(out@) =~= start + c_defs(t, path@, i as int));
}

/// The C entities of a syntax tree, in document order.
pub fn definitions(d: &Document, path: &str) -> (r: Vec<Node>)
    requires
        d.wf(),
    ensures
        node_values(r@) == if d.tree@.nodes.len() > 0 {
            c_defs(d.tree@, path@, 0)
        } else {
            seq![]
        },
{
    let mut out: Vec<Node> = Vec::new();
    if d.tree.nodes.len() > 0 {
        visit(d, path, 0, &mut out);
        assert(node_values(Seq::<Node>::empty()) =~= Seq::<NodeValue>::empty());
        assert(node_values(out@) =~= c_defs(d.tree@, path@, 0));
    } else {
        assert(node_values(out@) =~= Seq::<NodeValue>::empty());
    }
    out
}

proof fn lemma_c_defs_entities(t: TreeView, path: Seq<char>, i: int)
    ensures
        all_entities_of(c_defs(t, path, i), t, Language::C, path),
    decreases t.nodes.len() - i, kids(t, i).len() + 1,
{
    if 0 <= i < t.nodes.len() {
        lemma_c_defs_list_entities(t, path, i, kids(t, i));
        lemma_entities_add(c_entity(t, path, i), c_defs_list(t, path, i, kids(t, i)), t, Language::C, path);
    }
}

proof fn lemma_c_defs_list_entities(t: TreeView, path: Seq<char>, p: int, cs: Seq<usize>)
    ensures
        all_entities_of(c_defs_list(t, path, p, cs), t, Language::C, path),
    decreases t.nodes.len() - p, cs.len(),
{
    if cs.len() > 0 {
        lemma_c_defs_list_entities(t, path, p, cs.drop_last());
        if p < cs.last() < t.nodes.len() {
            lemma_c_defs_entities(t, path, cs.last() as int);
            lemma_entities_add(c_defs_list(t, path, p, cs.drop_last()), c_defs(t, path, cs.last() as int), t, Language::C, path);
        } else {
            lemma_entities_add(c_defs_list(t, path, p, cs.drop_last()), seq![], t, Language::C, path);
        }
    }
}

/// Every entity the C extractor finds belongs to the file at `path`, is
/// tagged C, is unsaved, and is not a file node.
pub proof fn lemma_c_entities_of_file(t: TreeView, path: Seq<char>)
    ensures
        all_entities_of(c_entities(t, path), t, Language::C, path),
{
    if t.nodes.len() > 0 {
        lemma_c_defs_entities(t, path, 0);
    }
}

/// The C entity-kind table: a function definition declares a function, a
/// declaration with a function declarator a function (a prototype), a
/// struct or enum specifier with a body a struct or an enum, a typedef a
/// type alias, an `#include` an import and a `#define` a constant.
pub proof fn lemma_c_kind_table(t: TreeView, i: int)
    ensures
        kind_of(t, i) == "function_definition"@ ==> c_kind(t, i) == Some(NodeKind::Function),
        kind_of(t, i) == "type_definition"@ ==> c_kind(t, i) == Some(NodeKind::TypeAlias),
        kind_of(t, i) == "preproc_include"@ ==> c_kind(t, i) == Some(NodeKind::Import),
        kind_of(t, i) == "preproc_def"@ ==> c_kind(t, i) == Some(NodeKind::Constant),
        kind_of(t, i) == "struct_specifier"@ ==> c_kind(t, i) == (if field_child(t, i, "body"@) is Some { Some(NodeKind::Struct) } else { None }),
        kind_of(t, i) == "enum_specifier"@ ==> c_kind(t, i) == (if field_child(t, i, "body"@) is Some { Some(NodeKind::Enum) } else { None }),
        kind_of(t, i) == "declaration"@ ==> c_kind(t, i) == (if field_child(t, i, "declarator"@) matches Some(d) && kind_of(t, d as int) == "function_declarator"@ { Some(NodeKind::Function) } else { None }),
{
    reveal_strlit("function_definition");
    reveal_strlit("declaration");
    reveal_strlit("declarator");
    reveal_strlit("function_declarator");
    reveal_strlit("struct_specifier");
    reveal_strlit("body");
    reveal_strlit("enum_specifier");
    reveal_strlit("type_definition");
    reveal_strlit("preproc_include");
    reveal_strlit("preproc_def");
    assert("function_definition"@ != "declaration"@) by { assert("function_definition"@.len() != "declaration"@.len()); }
    assert("function_definition"@ != "declarator"@) by { assert("function_definition"@.len() != "declarator"@.len()); }
    assert("function_definition"@ != "function_declarator"@) by { assert("function_definition"@[11] != "function_declarator"@[11]); }
    assert("function_definition"@ != "struct_specifier"@) by { assert("function_definition"@.len() != "struct_specifier"@.len()); }
    assert("function_definition"@ != "body"@) by { assert("function_definition"@.len() != "body"@.len()); }
    assert("function_definition"@ != "enum_specifier"@) by { assert("function_definition"@.len() != "enum_specifier"@.len()); }
    assert("function_definition"@ != "type_definition"@) by { assert("function_definition"@.len() != "type_definition"@.len()); }
    assert("function_definition"@ != "preproc_include"@) by { assert("function_definition"@.len() != "preproc_include"@.len()); }
    assert("function_definition"@ != "preproc_def"@) by { assert("function_definition"@.len() != "preproc_def"@.len()); }
    assert("declaration"@ != "declarator"@) by { assert("declaration"@.len() != "declarator"@.len()); }
    assert("declaration"@ != "function_declarator"@) by { assert("declaration"@.len() != "function_declarator"@.len()); }
    assert("declaration"@ != "struct_specifier"@) by { assert("declaration"@.len() != "struct_specifier"@.len()); }
    assert("declaration"@ != "body"@) by { assert("declaration"@.len() != "body"@.len()); }
    assert("declaration"@ != "enum_specifier"@) by { assert("declaration"@.len() != "enum_specifier"@.len()); }
    assert("declaration"@ != "type_definition"@) by { assert("declaration"@.len() != "type_definition"@.len()); }
    assert("declaration"@ != "preproc_include"@) by { assert("declaration"@.len() != "preproc_include"@.len()); }
    assert("declaration"@ != "preproc_def"@) by { assert("declaration"@[0] != "preproc_def"@[0]); }
    assert("declarator"@ != "function_declarator"@) by { assert("declarator"@.len() != "function_declarator"@.len()); }
    assert("declarator"@ != "struct_specifier"@) by { assert("declarator"@.len() != "struct_specifier"@.len()); }
    assert("declarator"@ != "body"@) by { assert("declarator"@.len() != "body"@.len()); }
    assert("declarator"@ != "enum_specifier"@) by { assert("declarator"@.len() != "enum_specifier"@.len()); }
    assert("declarator"@ != "type_definition"@) by { assert("declarator"@.len() != "type_definition"@.len()); }
    assert("declarator"@ != "preproc_include"@) by { assert("declarator"@.len() != "preproc_include"@.len()); }
    assert("declarator"@ != "preproc_def"@) by { assert("declarator"@.len() != "preproc_def"@.len()); }
    assert("function_declarator"@ != "struct_specifier"@) by { assert("function_declarator"@.len() != "struct_specifier"@.len()); }
    assert("function_declarator"@ != "body"@) by { assert("function_declarator"@.len() != "body"@.len()); }
    assert("function_declarator"@ != "enum_specifier"@) by { assert("function_declarator"@.len() != "enum_specifier"@.len()); }
    assert("function_declarator"@ != "type_definition"@) by { assert("function_declarator"@.len() != "type_definition"@.len()); }
    assert("function_declarator"@ != "preproc_include"@) by { assert("function_declarator"@.len() != "preproc_include"@.len()); }
    assert("function_declarator"@ != "preproc_def"@) by { assert("function_declarator"@.len() != "preproc_def"@.len()); }
    assert("struct_specifier"@ != "body"@) by { assert("struct_specifier"@.len() != "body"@.len()); }
    assert("struct_specifier"@ != "enum_specifier"@) by { assert("struct_specifier"@.len() != "enum_specifier"@.len()); }
    assert("struct_specifier"@ != "type_definition"@) by { assert("struct_specifier"@.len() != "type_definition"@.len()); }
    assert("struct_specifier"@ != "preproc_include"@) by { assert("struct_specifier"@.len() != "preproc_include"@.len()); }
    assert("struct_specifier"@ != "preproc_def"@) by { assert("struct_specifier"@.len() != "preproc_def"@.len()); }
    assert("body"@ != "enum_specifier"@) by { assert("body"@.len() != "enum_specifier"@.len()); }
    assert("body"@ != "type_definition"@) by { assert("body"@.len() != "type_definition"@.len()); }
    assert("body"@ != "preproc_include"@) by { assert("body"@.len() != "preproc_include"@.len()); }
    assert("body"@ != "preproc_def"@) by { assert("body"@.len() != "preproc_def"@.len()); }
    assert("enum_specifier"@ != "type_definition"@) by { assert("enum_specifier"@.len() != "type_definition"@.len()); }
    assert("enum_specifier"@ != "preproc_include"@) by { assert("enum_specifier"@.len() != "preproc_include"@.len()); }
    assert("enum_specifier"@ != "preproc_def"@) by { assert("enum_specifier"@.len() != "preproc_def"@.len()); }
    assert("type_definition"@ != "preproc_include"@) by { assert("type_definition"@[0] != "preproc_include"@[0]); }
    assert("type_definition"@ != "preproc_def"@) by { assert("type_definition"@.len() != "preproc_def"@.len()); }
    assert("preproc_include"@ != "preproc_def"@) by { assert("preproc_include"@.len() != "preproc_def"@.len()); }
}

/// The C entities of a whole syntax tree.
pub open spec fn c_entities(t: TreeView, path: Seq<char>) -> Seq<NodeValue> {
    if t.nodes.len() > 0 {
        c_defs(t, path, 0)
    } else {
        seq![]
    }
}

/// Builds the parse of `content` at `path` from its C syntax tree: the file
/// node, the entities in document order, and a `Contains` edge from the file
/// node to each entity.
pub fn parse_tree(path: &str, content: &str, tree: SyntaxTree) -> (r: ParseResult)
    ensures
        parse_value(r, path@, content@, Language::C, c_entities(tree@, path@)),
{
    let d = Document::new(tree);
    let defs = definitions(&d, path);
    assemble(path, content, Language::C, defs)
}

/// Parses a C source file: the file node, its entities and the `Contains`
/// edges from the file node to each entity. Fails only when the
/// tree-sitter grammar cannot be loaded; any text, malformed or not, parses.
pub fn parse_with_edges(path: &str, content: &str) -> (r: Result<ParseResult, DeagleError>)
    ensures
        match syntax_view(Grammar::C, content@) {
            Some(t) => r matches Ok(p) && parse_value(p, path@, content@, Language::C, c_entities(t, path@)),
            None => r matches Err(e) && parse_failure(e, path@, Grammar::C),
        },
        syntax_view(Grammar::C, content@) matches Some(t) ==> (encode_utf8(content@).len() < u32::MAX
            ==> tree_rows_in_order(t)),
{
    match syntax_tree(Grammar::C, content) {
        Ok(tree) => Ok(parse_tree(path, content, tree)),
        Err(m) => Err(parse_error(path, m)),
    }
}

/// Parses a C source file into its nodes (the file node first).
pub fn parse(path: &str, content: &str) -> (r: Result<Vec<Node>, DeagleError>)
    ensures
        match syntax_view(Grammar::C, content@) {
            Some(t) => r matches Ok(v) && node_values(v@) == seq![file_entity(path@, content@, Language::C)] + c_entities(t, path@),
            None => r matches Err(e) && parse_failure(e, path@, Grammar::C),
        },
        syntax_view(Grammar::C, content@) matches Some(t) ==> (encode_utf8(content@).len() < u32::MAX
            ==> tree_rows_in_order(t)),
{
    match parse_with_edges(path, content) {
        Ok(p) => Ok(p.nodes),
        Err(e) => Err(e),
    }
}
} // verus!
