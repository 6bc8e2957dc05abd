//! What every language extractor shares: how an entity is cut from a syntax
//! node, the file node that heads every result, and the `Contains` edges
//! from the file to each entity.
use vstd::prelude::*;
use crate::model::{DeagleError, EdgeKind, Language, Node, NodeKind, NodeValue, ParseResult, node_values, lemma_node_values_add};
use crate::grammar::{Grammar, load_failure, tree_rows_in_order};
use crate::syntax::{Document, TreeView, field_child, opt_text_eq, text_of};
use crate::text::{line_count, line_count_spec, truncate_content, truncated, owned, trim, trim_spec};

verus! {

/// Longest excerpt, in characters, kept as an entity's content.
pub const EXCERPT_CHARS: usize = 500;

/// One-based line number of a zero-based row, as a `u32` (wrapping).
pub open spec fn line_of(row: usize) -> u32 {
    ((row + 1) as u32)
}

/// Excerpt stored as an entity's content: the node's text, truncated.
pub open spec fn excerpt(text: Option<Seq<char>>) -> Option<Seq<char>> {
    match text {
        Some(s) => Some(truncated(s, EXCERPT_CHARS as nat)),
        None => None,
    }
}

/// The entity cut from node `i` with the given name and kind: its lines
/// span the node's rows and its content is the node's text, truncated.
pub open spec fn entity_at(
    t: TreeView,
    at: int,
    name: Seq<char>,
    kind: NodeKind,
    lang: Language,
    path: Seq<char>,
) -> NodeValue {
    NodeValue {
        id: 0,
        name: name,
        kind: kind,
        language: lang,
        file_path: path,
        line_start: line_of(t.nodes[at].start_row),
        line_end: line_of(t.nodes[at].end_row),
        content: excerpt(text_of(t, at)),
    }
}

/// `v` is an entity of the file at `path` in language `lang`, cut from a
/// node of `t`: an unsaved node (id 0) of a kind other than `File`, tagged
/// with both, whose lines are those of one of the tree's nodes.
pub open spec fn entity_of(v: NodeValue, t: TreeView, lang: Language, path: Seq<char>) -> bool {
    &&& v.id == 0
    &&& v.kind != NodeKind::File
    &&& v.language == lang
    &&& v.file_path == path
    &&& exists|at: int|
        0 <= at < t.nodes.len() && v.line_start == line_of(#[trigger] t.nodes[at].start_row) && v.line_end
            == line_of(t.nodes[at].end_row)
}

/// Every value of `s` is an entity of the file at `path` in language
/// `lang`, cut from a node of `t`.
pub open spec fn all_entities_of(s: Seq<NodeValue>, t: TreeView, lang: Language, path: Seq<char>) -> bool {
    forall|k: int| 0 <= k < s.len() ==> entity_of(#[trigger] s[k], t, lang, path)
}

/// Two runs of entities of one file make one run.
pub proof fn lemma_entities_add(
    a: Seq<NodeValue>,
    b: Seq<NodeValue>,
    t: TreeView,
    lang: Language,
    path: Seq<char>,
)
    requires
        all_entities_of(a, t, lang, path),
        all_entities_of(b, t, lang, path),
    ensures
        all_entities_of(a + b, t, lang, path),
{
    assert forall|k: int| 0 <= k < (a + b).len() implies entity_of(#[trigger] (a + b)[k], t, lang, path) by {
        if k < a.len() {
            assert((a + b)[k] == a[k]);
        } else {
            assert((a + b)[k] == b[k - a.len()]);
        }
    }
}

/// An entity cut from a node of a tree whose rows are in order starts on
/// line 1 or later and ends on its starting line or after it.
pub proof fn lemma_entity_lines(v: NodeValue, t: TreeView, lang: Language, path: Seq<char>)
    requires
        entity_of(v, t, lang, path),
        tree_rows_in_order(t),
    ensures
        1 <= v.line_start <= v.line_end,
{
    let at = choose|at: int|
        0 <= at < t.nodes.len() && v.line_start == line_of(#[trigger] t.nodes[at].start_row) && v.line_end
            == line_of(t.nodes[at].end_row);
    assert(t.nodes[at].start_row <= t.nodes[at].end_row < u32::MAX);
}

/// Text of node `i` without surrounding white space.
pub open spec fn trimmed_text(t: TreeView, i: int) -> Option<Seq<char>> {
    match text_of(t, i) {
        Some(s) => Some(trim_spec(s)),
        None => None,
    }
}

/// Text of the child of `i` in field `f`.
pub open spec fn field_text(t: TreeView, i: int, f: Seq<char>) -> Option<Seq<char>> {
    match field_child(t, i, f) {
        Some(c) => text_of(t, c as int),
        None => None,
    }
}

/// One-based line number of a zero-based row.
pub fn line_number(row: usize) -> (l: u32)
    ensures
        l == line_of(row),
{
    let low = #[verifier::truncate] (row as u32);
    let r: u32 = if low == u32::MAX {
        0
    } else {
        low + 1
    };
    assert(r == ((row + 1) as u32)) by (bit_vector)
        requires
            low == row as u32,
            r == (if low == 0xffff_ffffu32 {
                0u32
            } else {
                (low + 1) as u32
            }),
    ;
    r
}

impl Document {
    /// The entity cut from node `at`, named `name`, of kind `kind`.
    pub fn entity(
        &self,
        at: usize,
        name: String,
        kind: NodeKind,
        lang: Language,
        path: &str,
    ) -> (n: Node)
        requires
            at < self.tree@.nodes.len(),
        ensures
            n@ == entity_at(self.tree@, at as int, name@, kind, lang, path@),
    {
        let node = &self.tree.nodes[at];
        let content = match self.text(at) {
            Some(s) => Some(truncate_content(s.as_str(), EXCERPT_CHARS)),
            None => None,
        };
        Node {
            id: 0,
            name,
            kind,
            language: lang,
            file_path: owned(path),
            line_start: line_number(node.start_row),
            line_end: line_number(node.end_row),
            content,
        }
    }

    /// Text of node `i` without surrounding white space.
    pub fn trimmed_text(&self, i: usize) -> (r: Option<String>)
        requires
            i < self.tree@.nodes.len(),
        ensures
            opt_text_eq(r, trimmed_text(self.tree@, i as int)),
    {
        match self.text(i) {
            Some(s) => Some(trim(s.as_str())),
            None => None,
        }
    }

    /// Text of the child of `i` in field `f`.
    pub fn field_text(&self, i: usize, f: &str) -> (r: Option<String>)
        requires
            self.wf(),
            i < self.tree@.nodes.len(),
        ensures
            opt_text_eq(r, field_text(self.tree@, i as int, f@)),
    {
        match self.field_child(i, f) {
            Some(c) => self.text(c),
            None => None,
        }
    }
}

/// Name of the file a path leads to (`std::path::Path::file_name`).
pub uninterp spec fn path_file_name(path: Seq<char>) -> Option<Seq<char>>;

/// The last component of `path` (`std::path::Path::file_name`), `None` when
/// the path ends in `..` or has no component. The contract names the
/// result; nothing more is claimed.
#[verifier::external_body]
fn file_name(path: &str) -> (r: Option<String>)
    ensures
        opt_text_eq(r, path_file_name(path@)),
{
    std::path::Path::new(path).file_name().and_then(|n| n.to_str()).map(String::from)
}

/// The node that stands for the whole file: named after the file, spanning
/// line 1 to the file's line count.
pub open spec fn file_entity(path: Seq<char>, content: Seq<char>, lang: Language) -> NodeValue {
    NodeValue {
        id: 0,
        name: match path_file_name(path) {
            Some(n) => n,
            None => "unknown"@,
        },
        kind: NodeKind::File,
        language: lang,
        file_path: path,
        line_start: 1,
        line_end: (line_count_spec(content) as u32),
        content: None,
    }
}

/// `Contains` edges from the file node (position 0) to every other node.
pub open spec fn contains_edges(count: nat) -> Seq<(usize, usize, EdgeKind)> {
    Seq::new((count - 1) as nat, |k: int| (0usize, (k + 1) as usize, EdgeKind::Contains))
}

/// The value of a parse: the file node followed by `defs`, and the
/// `Contains` edges from the file node to each of them.
pub open spec fn parse_value(
    r: ParseResult,
    path: Seq<char>,
    content: Seq<char>,
    lang: Language,
    defs: Seq<NodeValue>,
) -> bool {
    &&& node_values(r.nodes@) == seq![file_entity(path, content, lang)] + defs
    &&& r.edges@ == contains_edges(r.nodes@.len())
}

/// A parse error for the file at `path` with message `message`.
pub open spec fn parse_error_of(e: DeagleError, path: Seq<char>, message: Seq<char>) -> bool {
    e matches DeagleError::Parse { file, message: m } && file@ == path && m@ == message
}

/// The error a parser reports when its grammar `g` cannot be loaded.
pub open spec fn parse_failure(e: DeagleError, path: Seq<char>, g: Grammar) -> bool {
    parse_error_of(e, path, load_failure(g))
}

/// The parse error for the file at `path`, with `message`.
pub fn parse_error(path: &str, message: String) -> (e: DeagleError)
    ensures
        parse_error_of(e, path@, message@),
{
    DeagleError::Parse { file: owned(path), message }
}

/// Puts the file node in front of `defs` and links it to each of them.
pub fn assemble(path: &str, content: &str, lang: Language, defs: Vec<Node>) -> (r: ParseResult)
    ensures
        parse_value(r, path@, content@, lang, node_values(defs@)),
{
    let name = match file_name(path) {
        Some(n) => n,
        None => owned("unknown"),
    };
    let lines = line_count(content);
    let file = Node {
        id: 0,
        name,
        kind: NodeKind::File,
        language: lang,
        file_path: owned(path),
        line_start: 1,
        line_end: lines as u32,
        content: None,
    };
    let mut nodes: Vec<Node> = Vec::new();
    nodes.push(file);
    let mut defs = defs;
    let ghost d = defs@;
    nodes.append(&mut defs);
    proof {
        lemma_node_values_add(seq![file], d);
        assert(seq![file] + d =~= nodes@);
        assert(node_values(seq![file]) =~= seq![file@]);
    }
    let mut edges: Vec<(usize, usize, EdgeKind)> = Vec::new();
    let mut i: usize = 1;
    while i < nodes.len()
        invariant
            1 <= i <= nodes@.len(),
            edges@ == contains_edges(i as nat),
        decreases nodes@.len() - i,
    {
        edges.push((0, i, EdgeKind::Contains));
        assert(edges@ =~= contains_edges((i + 1) as nat));
        i = i + 1;
    }
    ParseResult { nodes, edges }
}

/// Every parse begins with the file node, and its edges are exactly one
/// `Contains` edge from the file node to each other node, in order.
pub proof fn lemma_parse_shape(
    r: ParseResult,
    path: Seq<char>,
    content: Seq<char>,
    lang: Language,
    defs: Seq<NodeValue>,
)
    requires
        parse_value(r, path, content, lang, defs),
    ensures
        r.nodes@.len() == defs.len() + 1,
        r.nodes@[0]@ == file_entity(path, content, lang),
        r.nodes@[0].kind == NodeKind::File,
        r.edges@.len() == r.nodes@.len() - 1,
        forall|k: int|
            0 <= k < r.edges@.len() ==> #[trigger] r.edges@[k] == (0usize, (k + 1) as usize, EdgeKind::Contains)
                && k + 1 < r.nodes@.len(),
        forall|k: int| 0 <= k < defs.len() ==> #[trigger] r.nodes@[k + 1]@ == defs[k],
{
    let vs = node_values(r.nodes@);
    assert(vs.len() == r.nodes@.len());
    assert(vs[0] == r.nodes@[0]@);
    assert forall|k: int| 0 <= k < defs.len() implies #[trigger] r.nodes@[k + 1]@ == defs[k] by {
        assert(vs[k + 1] == r.nodes@[k + 1]@);
    }
}

/// An entity's content is its node's text cut to its first 500
/// characters: the whole text when it has at most 500, else exactly its
/// first 500.
pub proof fn lemma_excerpt_bounded(t: TreeView, at: int, name: Seq<char>, kind: NodeKind, lang: Language, path: Seq<char>)
    ensures
        entity_at(t, at, name, kind, lang, path).content == match text_of(t, at) {
            Some(full) => Some(if full.len() <= 500 { full } else { full.subrange(0, 500) }),
            None => None,
        },
        entity_at(t, at, name, kind, lang, path).content matches Some(c) ==> (c.len() <= 500
            && (text_of(t, at) matches Some(full) && c == full.subrange(0, c.len() as int))),
{
    if let Some(full) = text_of(t, at) {
        assert(truncated(full, EXCERPT_CHARS as nat) == full.subrange(
            0,
            truncated(full, EXCERPT_CHARS as nat).len() as int,
        ));
    }
}

} // verus!
