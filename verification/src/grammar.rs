//! Syntax trees from tree-sitter: a source text is parsed with one of the
//! grammars, and its nodes are read off in document order, each with the
//! depth tree-sitter reports; the parent of every node is then recovered
//! from those depths.
use vstd::prelude::*;
use vstd::utf8::encode_utf8;
use crate::syntax::{NodeView, SyntaxNode, SyntaxTree, TreeView};
use crate::text::{concat, owned};

verus! {

/// The tree-sitter grammars the extractors use.
#[derive(Debug, Clone, Copy, PartialEq, Eq, Structural)]
pub enum Grammar {
    Rust,
    Python,
    Go,
    Tsx,
    Java,
    C,
    Cpp,
    Ruby,
}

/// `tree_sitter::Tree`, a parsed syntax tree, known to the verifier only as
/// an opaque value; what it holds is named by [`tree_nodes`].
#[verifier::external_type_specification]
#[verifier::external_body]
pub struct ExTree(tree_sitter::Tree);

/// One node of a parsed tree as tree-sitter reports it.
pub struct RawNode {
    pub kind: String,
    pub field: Option<String>,
    /// Depth below the root (the root has depth 0).
    pub depth: u32,
    pub start_row: usize,
    pub end_row: usize,
    pub start_byte: usize,
    pub end_byte: usize,
}

/// A reported node as the specifications see it.
pub ghost struct RawView {
    pub kind: Seq<char>,
    pub field: Option<Seq<char>>,
    pub depth: u32,
    pub start_row: usize,
    pub end_row: usize,
    pub start_byte: usize,
    pub end_byte: usize,
}

impl View for RawNode {
    type V = RawView;

    open spec fn view(&self) -> RawView {
        RawView {
            kind: self.kind@,
            field: match self.field {
                Some(f) => Some(f@),
                None => None,
            },
            depth: self.depth,
            start_row: self.start_row,
            end_row: self.end_row,
            start_byte: self.start_byte,
            end_byte: self.end_byte,
        }
    }
}

/// The nodes a `tree_sitter::Tree` holds, in document order (a node comes
/// before its descendants, siblings keep their order).
pub uninterp spec fn tree_nodes(t: tree_sitter::Tree) -> Seq<RawView>;

/// Whether `tree_sitter::Parser::set_language` accepts grammar `g`: it does
/// when the grammar's ABI version is one this tree-sitter reads.
pub uninterp spec fn grammar_loads(g: Grammar) -> bool;

/// The nodes of the tree `tree_sitter::Parser::parse` makes of a source text
/// with grammar `g` (a tree comes back for any text once a grammar is set;
/// syntax errors become error nodes).
pub uninterp spec fn parsed(g: Grammar, source: Seq<char>) -> Seq<RawView>;

/// Every node ends on its starting row or after it, and on a row below
/// `u32::MAX`.
pub open spec fn rows_in_order(nodes: Seq<RawView>) -> bool {
    forall|k: int| 0 <= k < nodes.len() ==> #[trigger] nodes[k].start_row <= nodes[k].end_row < u32::MAX
}

/// Every node of the tree ends on its starting row or after it, and on a
/// row below `u32::MAX`.
pub open spec fn tree_rows_in_order(t: TreeView) -> bool {
    forall|k: int| 0 <= k < t.nodes.len() ==> #[trigger] t.nodes[k].start_row <= t.nodes[k].end_row < u32::MAX
}

/// The text (`Display`) of the `tree_sitter::LanguageError` that
/// `tree_sitter::Parser::set_language` returns when it refuses grammar `g`.
pub uninterp spec fn language_error(g: Grammar) -> Seq<char>;

/// Loads grammar `g` into a `tree_sitter::Parser` (`set_language`) and
/// parses `source` (`parse`). An error, with the text of the
/// `LanguageError`, exactly when the grammar cannot be loaded; once a
/// grammar is set, `parse` gives a tree for any text. The contract names
/// the resulting tree's nodes, and states one fact of them for a source of
/// fewer than `u32::MAX` bytes: a node's end point is its start point plus
/// its extent (`ts_node_end_point`), so it never ends on an earlier row,
/// and rows count the source's line feeds, so none reaches `u32::MAX`.
#[verifier::external_body]
fn parse_source(g: Grammar, source: &str) -> (t: Result<Option<tree_sitter::Tree>, String>)
    ensures
        t is Err <==> !grammar_loads(g),
        t matches Err(m) ==> m@ == language_error(g),
        t matches Ok(x) ==> x matches Some(y) && tree_nodes(y) == parsed(g, source@),
        t matches Ok(Some(y)) ==> (encode_utf8(source@).len() < u32::MAX ==> rows_in_order(
            tree_nodes(y),
        )),
{
    let language: tree_sitter::Language = match g {
        Grammar::Rust => tree_sitter_rust::LANGUAGE.into(),
        Grammar::Python => tree_sitter_python::LANGUAGE.into(),
        Grammar::Go => tree_sitter_go::LANGUAGE.into(),
        Grammar::Tsx => tree_sitter_typescript::LANGUAGE_TSX.into(),
        Grammar::Java => tree_sitter_java::LANGUAGE.into(),
        Grammar::C => tree_sitter_c::LANGUAGE.into(),
        Grammar::Cpp => tree_sitter_cpp::LANGUAGE.into(),
        Grammar::Ruby => tree_sitter_ruby::LANGUAGE.into(),
    };
    let mut parser = tree_sitter::Parser::new();
    match parser.set_language(&language) {
        Ok(()) => Ok(parser.parse(source, None)),
        Err(e) => Err(e.to_string()),
    }
}

/// Number of nodes of the tree: `tree_sitter::Node::descendant_count` of
/// its root, which counts the root itself.
#[verifier::external_body]
fn node_count(t: &tree_sitter::Tree) -> (n: usize)
    ensures
        n == tree_nodes(*t).len(),
{
    t.root_node().descendant_count()
}

/// The node at position `i` of the tree in document order, reached with
/// `tree_sitter::TreeCursor::goto_descendant`: its kind, the field name it
/// fills, the cursor's depth, its rows and its byte range.
#[verifier::external_body]
fn node_at(t: &tree_sitter::Tree, i: usize) -> (r: RawNode)
    requires
        i < tree_nodes(*t).len(),
    ensures
        r@ == tree_nodes(*t)[i as int],
{
    let mut cursor = t.walk();
    cursor.goto_descendant(i);
    let n = cursor.node();
    let field = cursor.field_name().map(String::from);
    let (start, end) = (n.start_position(), n.end_position());
    RawNode { kind: n.kind().to_string(), field, depth: cursor.depth(), start_row: start.row,
        end_row: end.row, start_byte: n.start_byte(), end_byte: n.end_byte() }
}

/// The depths of the reported nodes.
pub open spec fn depths(r: Seq<RawView>) -> Seq<u32> {
    r.map_values(|x: RawView| x.depth)
}

/// The last position at or before `j` whose depth is below `d`; 0 when
/// there is none.
pub open spec fn shallower_before(ds: Seq<u32>, d: u32, j: int) -> usize
    decreases j + 1,
{
    if j < 0 {
        0
    } else if ds[j] < d {
        j as usize
    } else {
        shallower_before(ds, d, j - 1)
    }
}

/// The parent of node `i`: the nearest node before it that lies
/// shallower (the root names itself).
pub open spec fn parent_in(ds: Seq<u32>, i: int) -> usize {
    shallower_before(ds, ds[i], i - 1)
}

/// The syntax tree of reported nodes `r` over source `s`.
pub open spec fn tree_of(r: Seq<RawView>, s: Seq<char>) -> TreeView {
    TreeView {
        nodes: Seq::new(
            r.len(),
            |i: int|
                NodeView {
                    kind: r[i].kind,
                    field: r[i].field,
                    start_row: r[i].start_row,
                    end_row: r[i].end_row,
                    start_byte: r[i].start_byte,
                    end_byte: r[i].end_byte,
                    parent: parent_in(depths(r), i),
                },
        ),
        source: s,
    }
}

/// The syntax tree grammar `g` gives `s`; `None` only when the grammar
/// cannot be loaded.
pub open spec fn syntax_view(g: Grammar, s: Seq<char>) -> Option<TreeView> {
    if grammar_loads(g) {
        Some(tree_of(parsed(g, s), s))
    } else {
        None
    }
}

/// Whether a text gets a syntax tree depends on the grammar alone: with a
/// grammar that loads, every text parses, malformed or not.
pub proof fn lemma_parse_needs_only_the_grammar(g: Grammar, s1: Seq<char>, s2: Seq<char>)
    ensures
        (syntax_view(g, s1) is Some) == (syntax_view(g, s2) is Some),
        syntax_view(g, s1) is Some <==> grammar_loads(g),
{
}

/// Nodes strictly after `a` and up to `b` lie at depth `d` or deeper, so
/// the search for a shallower node gives the same answer from `b` as from `a`.
proof fn lemma_skip(ds: Seq<u32>, d: u32, a: int, b: int)
    requires
        -1 <= a <= b < ds.len(),
        forall|k: int| a < k <= b ==> ds[k] >= d,
    ensures
        shallower_before(ds, d, b) == shallower_before(ds, d, a),
    decreases b - a,
{
    if a < b {
        lemma_skip(ds, d, a, b - 1);
    }
}

/// What the search for a shallower node finds: either a position `q` with
/// depth below `d` after which nothing up to `m` is shallower, or nothing
/// at all up to `m` (and then 0).
proof fn lemma_shape(ds: Seq<u32>, d: u32, m: int)
    requires
        -1 <= m < ds.len() <= usize::MAX,
    ensures
        ({
            let q = shallower_before(ds, d, m) as int;
            ||| (0 <= q <= m && ds[q] < d && forall|k: int| q < k <= m ==> ds[k] >= d)
            ||| (q == 0 && forall|k: int| 0 <= k <= m ==> ds[k] >= d)
        }),
    decreases m + 1,
{
    if m >= 0 && ds[m] >= d {
        lemma_shape(ds, d, m - 1);
    }
}

/// Reads every node of `t` in document order and links each to its parent.
fn flatten(t: &tree_sitter::Tree, source: &str) -> (r: SyntaxTree)
    ensures
        r@ == tree_of(tree_nodes(*t), source@),
{
    let ghost raw = tree_nodes(*t);
    let ghost ds = depths(raw);
    let ghost want = tree_of(raw, source@);
    let n = node_count(t);
    let mut nodes: Vec<SyntaxNode> = Vec::new();
    let mut depth: Vec<u32> = Vec::new();
    let mut i: usize = 0;
    while i < n
        invariant
            n == raw.len() == ds.len() == want.nodes.len(),
            raw == tree_nodes(*t),
            ds == depths(raw),
            want == tree_of(raw, source@),
            i <= n,
            nodes@.len() == i,
            depth@ == ds.subrange(0, i as int),
            forall|k: int| 0 <= k < i ==> (#[trigger] nodes@[k])@ == want.nodes[k],
        decreases n - i,
    {
        let x = node_at(t, i);
        let d = x.depth;
        let mut p: usize = 0;
        if i > 0 {
            let mut j: usize = i - 1;
            proof {
                lemma_skip(ds, d, (i - 1) as int, (i - 1) as int);
            }
            while j > 0 && depth[j] >= d
                invariant
                    0 <= j < i <= nodes@.len() == depth@.len(),
                    i < n == ds.len() == want.nodes.len(),
                    d == ds[i as int],
                    ds == depths(raw),
                    want == tree_of(raw, source@),
                    depth@ == ds.subrange(0, i as int),
                    forall|k: int| 0 <= k < i ==> (#[trigger] nodes@[k])@ == want.nodes[k],
                    shallower_before(ds, d, (i - 1) as int) == shallower_before(ds, d, j as int),
                decreases j,
            {
                let q = nodes[j].parent;
                proof {
                    assert(nodes@[j as int]@ == want.nodes[j as int]);
                    assert(q == shallower_before(ds, ds[j as int], j - 1));
                    lemma_shape(ds, ds[j as int], j - 1);
                    lemma_skip(ds, d, q as int, j as int);
                }
                j = q;
            }
            if depth[j] < d {
                p = j;
            } else {
                proof {
                    lemma_skip(ds, d, -1, 0);
                }
            }
        }
        proof {
            assert(p == parent_in(ds, i as int));
        }
        nodes.push(
            SyntaxNode {
                kind: x.kind,
                field: x.field,
                start_row: x.start_row,
                end_row: x.end_row,
                start_byte: x.start_byte,
                end_byte: x.end_byte,
                parent: p,
            },
        );
        depth.push(d);
        proof {
            assert(depth@ =~= ds.subrange(0, i + 1));
        }
        i = i + 1;
    }
    let r = SyntaxTree { nodes, source: owned(source) };
    assert(r@.nodes =~= want.nodes);
    r
}

/// The message a parse fails with when grammar `g` cannot be loaded.
pub open spec fn load_failure(g: Grammar) -> Seq<char> {
    "Failed to set language: "@ + language_error(g)
}

/// The syntax tree grammar `g` gives `source`: tree-sitter's nodes in
/// document order, each linked to its parent. When the grammar cannot be
/// loaded, the message saying so.
pub fn syntax_tree(g: Grammar, source: &str) -> (t: Result<SyntaxTree, String>)
    ensures
        match syntax_view(g, source@) {
            Some(v) => t matches Ok(x) && x@ == v,
            None => t matches Err(m) && m@ == load_failure(g),
        },
        t matches Ok(x) ==> (encode_utf8(source@).len() < u32::MAX ==> tree_rows_in_order(x@)),
{
    match parse_source(g, source) {
        Ok(Some(tree)) => Ok(flatten(&tree, source)),
        Ok(None) => Err(owned("Failed to parse file")),
        Err(m) => Err(concat("Failed to set language: ", m.as_str())),
    }
}

} // verus!
