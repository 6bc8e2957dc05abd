//! Syntax trees as the extractors read them: the nodes of a concrete syntax
//! tree in document order, each with its kind, the field it fills in its
//! parent, its rows, its text and its parent's position.
use vstd::prelude::*;
use crate::text::{byte_slice, str_eq, str_get};

verus! {

/// One node of a syntax tree.
pub struct SyntaxNode {
    /// Grammar kind of the node (`"function_item"`, `"identifier"`, ...).
    pub kind: String,
    /// Name of the field the node fills in its parent, if any.
    pub field: Option<String>,
    /// Zero-based row of the node's first character.
    pub start_row: usize,
    /// Zero-based row of the node's end.
    pub end_row: usize,
    /// Byte offset of the node's first character in the source.
    pub start_byte: usize,
    /// Byte offset just past the node's end in the source.
    pub end_byte: usize,
    /// Position of the parent node (the root names itself).
    pub parent: usize,
}

/// A syntax tree: its nodes in document order (a parent precedes its
/// children, and siblings keep their order), position 0 being the root,
/// and the source text the nodes' byte ranges point into.
pub struct SyntaxTree {
    pub nodes: Vec<SyntaxNode>,
    pub source: String,
}

/// A syntax node as the specifications see it.
pub ghost struct NodeView {
    pub kind: Seq<char>,
    pub field: Option<Seq<char>>,
    pub start_row: usize,
    pub end_row: usize,
    pub start_byte: usize,
    pub end_byte: usize,
    pub parent: usize,
}

/// A syntax tree as the specifications see it.
pub ghost struct TreeView {
    pub nodes: Seq<NodeView>,
    pub source: Seq<char>,
}

impl View for SyntaxNode {
    type V = NodeView;

    open spec fn view(&self) -> NodeView {
        NodeView {
            kind: self.kind@,
            field: match self.field {
                Some(f) => Some(f@),
                None => None,
            },
            start_row: self.start_row,
            end_row: self.end_row,
            start_byte: self.start_byte,
            end_byte: self.end_byte,
            parent: self.parent,
        }
    }
}

impl View for SyntaxTree {
    type V = TreeView;

    open spec fn view(&self) -> TreeView {
        TreeView { nodes: self.nodes@.map_values(|n: SyntaxNode| n@), source: self.source@ }
    }
}

/// Children of node `i` among the nodes before position `j`, in order.
pub open spec fn kids_before(t: TreeView, i: int, j: int) -> Seq<usize>
    decreases j,
{
    if j <= 0 {
        seq![]
    } else {
        kids_before(t, i, j - 1) + if j - 1 < t.nodes.len() && t.nodes[j - 1].parent == i
            && i < j - 1 {
            seq![(j - 1) as usize]
        } else {
            seq![]
        }
    }
}

/// Children of node `i`, in order: the later nodes that name `i` as parent.
pub open spec fn kids(t: TreeView, i: int) -> Seq<usize> {
    kids_before(t, i, t.nodes.len() as int)
}

/// `k` lists the children of every node of `t`.
pub open spec fn indexes_children(t: TreeView, k: Seq<Vec<usize>>) -> bool {
    &&& k.len() == t.nodes.len()
    &&& forall|i: int| 0 <= i < k.len() ==> #[trigger] k[i]@ == kids(t, i)
}

proof fn lemma_kids_before_bounds(t: TreeView, i: int, j: int)
    requires
        t.nodes.len() <= usize::MAX,
    ensures
        forall|m: int|
            0 <= m < kids_before(t, i, j).len() ==> i < #[trigger] kids_before(t, i, j)[m] < j
                && kids_before(t, i, j)[m] < t.nodes.len(),
    decreases j,
{
    if j > 0 {
        lemma_kids_before_bounds(t, i, j - 1);
        let a = kids_before(t, i, j - 1);
        let b = if j - 1 < t.nodes.len() && t.nodes[j - 1].parent == i && i < j - 1 {
            seq![(j - 1) as usize]
        } else {
            seq![]
        };
        assert(kids_before(t, i, j) == a + b);
        assert forall|m: int| 0 <= m < (a + b).len() implies i < #[trigger] (a + b)[m] < j && (a
            + b)[m] < t.nodes.len() by {
            if m < a.len() {
                assert((a + b)[m] == a[m]);
            } else {
                assert((a + b)[m] == b[m - a.len()]);
            }
        }
    }
}

/// Every child of node `i` comes after it and lies in the tree.
pub proof fn lemma_kids_bounds(t: TreeView, i: int)
    requires
        t.nodes.len() <= usize::MAX,
    ensures
        forall|m: int|
            0 <= m < kids(t, i).len() ==> i < #[trigger] kids(t, i)[m] < t.nodes.len(),
{
    lemma_kids_before_bounds(t, i, t.nodes.len() as int);
}

/// The children lists of all nodes of `t`.
pub fn index_children(t: &SyntaxTree) -> (k: Vec<Vec<usize>>)
    ensures
        indexes_children(t@, k@),
{
    let n = t.nodes.len();
    let mut k: Vec<Vec<usize>> = Vec::new();
    while k.len() < n
        invariant
            k@.len() <= n == t.nodes.len(),
            forall|i: int| 0 <= i < k@.len() ==> #[trigger] k@[i]@ == kids_before(t@, i, 0),
        decreases n - k@.len(),
    {
        k.push(Vec::new());
    }
    let mut j: usize = 0;
    while j < n
        invariant
            j <= n == t.nodes.len() == k@.len(),
            forall|i: int| 0 <= i < k@.len() ==> #[trigger] k@[i]@ == kids_before(t@, i, j as int),
        decreases n - j,
    {
        let p = t.nodes[j].parent;
        if p < j {
            k[p].push(j);
        }
        assert forall|i: int| 0 <= i < k@.len() implies #[trigger] k@[i]@ == kids_before(
            t@,
            i,
            j + 1,
        ) by {
            reveal_with_fuel(kids_before, 2);
        }
        j = j + 1;
    }
    k
}

/// First of the nodes `cs` that fills field `f`.
pub open spec fn first_in_field(t: TreeView, cs: Seq<usize>, f: Seq<char>) -> Option<usize>
    decreases cs.len(),
{
    if cs.len() == 0 {
        None
    } else if cs[0] < t.nodes.len() && opt_is(t.nodes[cs[0] as int].field, f) {
        Some(cs[0])
    } else {
        first_in_field(t, cs.drop_first(), f)
    }
}

/// The optional string is present and equals `f`.
pub open spec fn opt_is(s: Option<Seq<char>>, f: Seq<char>) -> bool {
    match s {
        Some(x) => x == f,
        None => false,
    }
}

/// The child of node `i` that fills field `f` (tree-sitter's
/// `child_by_field_name`): the first child with that field name.
pub open spec fn field_child(t: TreeView, i: int, f: Seq<char>) -> Option<usize> {
    first_in_field(t, kids(t, i), f)
}

/// First of the nodes `cs` of kind `k`.
pub open spec fn first_of_kind(t: TreeView, cs: Seq<usize>, k: Seq<char>) -> Option<usize>
    decreases cs.len(),
{
    if cs.len() == 0 {
        None
    } else if cs[0] < t.nodes.len() && t.nodes[cs[0] as int].kind == k {
        Some(cs[0])
    } else {
        first_of_kind(t, cs.drop_first(), k)
    }
}

/// First of the nodes `cs` of kind `k1` or `k2`.
pub open spec fn first_of_kinds(t: TreeView, cs: Seq<usize>, k1: Seq<char>, k2: Seq<char>) -> Option<usize>
    decreases cs.len(),
{
    if cs.len() == 0 {
        None
    } else if cs[0] < t.nodes.len() && (t.nodes[cs[0] as int].kind == k1 || t.nodes[cs[0] as int].kind == k2) {
        Some(cs[0])
    } else {
        first_of_kinds(t, cs.drop_first(), k1, k2)
    }
}

/// Kind of node `i`.
pub open spec fn kind_of(t: TreeView, i: int) -> Seq<char> {
    t.nodes[i].kind
}

/// Node `i` has kind `k`.
pub open spec fn is_kind(t: TreeView, i: int, k: Seq<char>) -> bool {
    t.nodes[i].kind == k
}

/// Text of node `i`, if it has one.
pub open spec fn text_of(t: TreeView, i: int) -> Option<Seq<char>> {
    byte_slice(t.source, t.nodes[i].start_byte, t.nodes[i].end_byte)
}

/// The tree with its children lists.
pub struct Document {
    pub tree: SyntaxTree,
    pub kids: Vec<Vec<usize>>,
}

impl Document {
    pub open spec fn wf(self) -> bool {
        &&& indexes_children(self.tree@, self.kids@)
        &&& self.tree@.nodes.len() <= usize::MAX
    }

    /// Lists the children of every node of `tree`.
    pub fn new(tree: SyntaxTree) -> (d: Document)
        ensures
            d.wf(),
            d.tree == tree,
    {
        let kids = index_children(&tree);
        assert(tree@.nodes.len() == tree.nodes.len());
        Document { tree, kids }
    }

    /// Whether node `i` has kind `k`.
    pub fn kind_is(&self, i: usize, k: &str) -> (r: bool)
        requires
            i < self.tree@.nodes.len(),
        ensures
            r == is_kind(self.tree@, i as int, k@),
    {
        str_eq(self.tree.nodes[i].kind.as_str(), k)
    }

    /// The child of node `i` filling field `f`.
    pub fn field_child(&self, i: usize, f: &str) -> (r: Option<usize>)
        requires
            self.wf(),
            i < self.tree@.nodes.len(),
        ensures
            r == field_child(self.tree@, i as int, f@),
            r matches Some(c) ==> i < c < self.tree@.nodes.len(),
    {
        let cs = &self.kids[i];
        proof {
            lemma_kids_bounds(self.tree@, i as int);
        }
        let mut m: usize = 0;
        assert(cs@.subrange(0, cs@.len() as int) =~= cs@);
        while m < cs.len()
            invariant
                m <= cs@.len(),
                cs@ == kids(self.tree@, i as int),
                forall|x: int| 0 <= x < cs@.len() ==> i < #[trigger] cs@[x] < self.tree@.nodes.len(),
                first_in_field(self.tree@, cs@, f@) == first_in_field(
                    self.tree@,
                    cs@.subrange(m as int, cs@.len() as int),
                    f@,
                ),
            decreases cs@.len() - m,
        {
            let c = cs[m];
            assert(cs@.subrange(m as int, cs@.len() as int).drop_first() =~= cs@.subrange(
                m + 1,
                cs@.len() as int,
            ));
            let hit = match &self.tree.nodes[c].field {
                Some(name) => str_eq(name.as_str(), f),
                None => false,
            };
            if hit {
                return Some(c);
            }
            m = m + 1;
        }
        None
    }

    /// The first child of node `i` of kind `k`.
    pub fn child_of_kind(&self, i: usize, k: &str) -> (r: Option<usize>)
        requires
            self.wf(),
            i < self.tree@.nodes.len(),
        ensures
            r == first_of_kind(self.tree@, kids(self.tree@, i as int), k@),
            r matches Some(c) ==> i < c < self.tree@.nodes.len(),
    {
        let cs = &self.kids[i];
        proof {
            lemma_kids_bounds(self.tree@, i as int);
        }
        let mut m: usize = 0;
        assert(cs@.subrange(0, cs@.len() as int) =~= cs@);
        while m < cs.len()
            invariant
                m <= cs@.len(),
                cs@ == kids(self.tree@, i as int),
                forall|x: int| 0 <= x < cs@.len() ==> i < #[trigger] cs@[x] < self.tree@.nodes.len(),
                first_of_kind(self.tree@, cs@, k@) == first_of_kind(
                    self.tree@,
                    cs@.subrange(m as int, cs@.len() as int),
                    k@,
                ),
            decreases cs@.len() - m,
        {
            let c = cs[m];
            assert(cs@.subrange(m as int, cs@.len() as int).drop_first() =~= cs@.subrange(
                m + 1,
                cs@.len() as int,
            ));
            if self.kind_is(c, k) {
                return Some(c);
            }
            m = m + 1;
        }
        None
    }

    /// The first child of node `i` of kind `k1` or `k2`.
    pub fn child_of_kinds(&self, i: usize, k1: &str, k2: &str) -> (r: Option<usize>)
        requires
            self.wf(),
            i < self.tree@.nodes.len(),
        ensures
            r == first_of_kinds(self.tree@, kids(self.tree@, i as int), k1@, k2@),
            r matches Some(c) ==> i < c < self.tree@.nodes.len(),
    {
        let cs = &self.kids[i];
        proof {
            lemma_kids_bounds(self.tree@, i as int);
        }
        let mut m: usize = 0;
        assert(cs@.subrange(0, cs@.len() as int) =~= cs@);
        while m < cs.len()
            invariant
                m <= cs@.len(),
                cs@ == kids(self.tree@, i as int),
                forall|x: int| 0 <= x < cs@.len() ==> i < #[trigger] cs@[x] < self.tree@.nodes.len(),
                first_of_kinds(self.tree@, cs@, k1@, k2@) == first_of_kinds(
                    self.tree@,
                    cs@.subrange(m as int, cs@.len() as int),
                    k1@,
                    k2@,
                ),
            decreases cs@.len() - m,
        {
            let c = cs[m];
            assert(cs@.subrange(m as int, cs@.len() as int).drop_first() =~= cs@.subrange(
                m + 1,
                cs@.len() as int,
            ));
            if self.kind_is(c, k1) || self.kind_is(c, k2) {
                return Some(c);
            }
            m = m + 1;
        }
        None
    }

    /// The text of node `i`, if it has one.
    pub fn text(&self, i: usize) -> (r: Option<String>)
        requires
            i < self.tree@.nodes.len(),
        ensures
            opt_text_eq(r, text_of(self.tree@, i as int)),
    {
        let n = &self.tree.nodes[i];
        str_get(self.tree.source.as_str(), n.start_byte, n.end_byte)
    }
}

/// `r` holds the characters `s` holds.
pub open spec fn opt_text_eq(r: Option<String>, s: Option<Seq<char>>) -> bool {
    match (r, s) {
        (Some(a), Some(b)) => a@ == b,
        (None, None) => true,
        _ => false,
    }
}

} // verus!
