//! What the graph store computes around its tables: the rows nodes are
//! stored as,
//! fuzzy ranking of search results, content hashes for incremental
//! indexing, and the database ids a parse's edges resolve to.
use vstd::prelude::*;
use vstd::utf8::encode_utf8;
use crate::model::{EdgeKind, Language, Node, NodeKind, NodeValue, edge_kind_name, language_name, node_kind_name, node_values, opt_text};
use crate::ranking::{rank, ranked};
use crate::text::{chars_of, concat, str_eq, string_of_chars};

verus! {

broadcast use vstd::string::group_string_axioms, vstd::seq_lib::group_to_multiset_ensures;

/// A row of the nodes table: a node with its kind and language as stored
/// names.
pub struct NodeRow {
    pub id: i64,
    pub name: String,
    pub kind: String,
    pub language: String,
    pub file_path: String,
    pub line_start: u32,
    pub line_end: u32,
    pub content: Option<String>,
}

impl NodeRow {
    /// The row a node is stored as.
    pub fn of_node(n: &Node) -> (r: NodeRow)
        ensures
            r.id == n.id,
            r.name@ == n.name@,
            r.kind@ == node_kind_name(n.kind),
            r.language@ == language_name(n.language),
            r.file_path@ == n.file_path@,
            r.line_start == n.line_start,
            r.line_end == n.line_end,
            opt_text(r.content) == opt_text(n.content),
    {
        let d = n.duplicate();
        NodeRow {
            id: d.id,
            name: d.name,
            kind: n.kind.to_string(),
            language: n.language.to_string(),
            file_path: d.file_path,
            line_start: d.line_start,
            line_end: d.line_end,
            content: d.content,
        }
    }
}

/// A character that `LIKE` reads as more than itself: the wildcards `%`
/// and `_`, and the escape character `\`.
pub open spec fn like_special(c: char) -> bool {
    c == '%' || c == '_' || c == '\\'
}

/// `s` with `\` put before each character `LIKE` would read as special, so
/// that under `ESCAPE '\'` it matches exactly `s`.
pub open spec fn like_escaped(s: Seq<char>) -> Seq<char>
    decreases s.len(),
{
    if s.len() == 0 {
        seq![]
    } else {
        let c = s.last();
        like_escaped(s.drop_last()) + if like_special(c) {
            seq!['\\', c]
        } else {
            seq![c]
        }
    }
}

/// The `LIKE ... ESCAPE '\'` pattern for names that contain `query` as a
/// substring: `%`, the query with its special characters escaped, `%`.
pub fn like_pattern(query: &str) -> (r: String)
    ensures
        r@ == seq!['%'] + like_escaped(query@) + seq!['%'],
{
    let q = chars_of(query);
    let mut v: Vec<char> = Vec::new();
    v.push('%');
    let mut i: usize = 0;
    while i < q.len()
        invariant
            q@ == query@,
            i <= q@.len(),
            v@ == seq!['%'] + like_escaped(q@.subrange(0, i as int)),
        decreases q@.len() - i,
    {
        let c = q[i];
        assert(q@.subrange(0, i + 1).drop_last() =~= q@.subrange(0, i as int));
        if c == '%' || c == '_' || c == '\\' {
            v.push('\\');
        }
        v.push(c);
        i = i + 1;
    }
    assert(q@.subrange(0, q@.len() as int) =~= q@);
    v.push('%');
    string_of_chars(v.as_slice())
}

/// The fuzzy score of `choice` against `pattern` under a default
/// `fuzzy_matcher::skim::SkimMatcherV2`, `None` when it does not match.
pub uninterp spec fn skim_score(choice: Seq<char>, pattern: Seq<char>) -> Option<i64>;

/// `FuzzyMatcher::fuzzy_match` of a default `SkimMatcherV2`. The contract
/// names the result.
#[verifier::external_body]
fn fuzzy_score(choice: &str, pattern: &str) -> (r: Option<i64>)
    ensures
        r == skim_score(choice@, pattern@),
{
    fuzzy_matcher::FuzzyMatcher::fuzzy_match(
        &fuzzy_matcher::skim::SkimMatcherV2::default(),
        choice,
        pattern,
    )
}

/// The score and position of every node among the first `n` of `s` whose
/// name matches `query`, in order.
pub open spec fn scored(s: Seq<NodeValue>, query: Seq<char>, n: int) -> Seq<(i128, usize)>
    decreases n,
{
    if n <= 0 {
        seq![]
    } else {
        scored(s, query, n - 1) + match skim_score(s[n - 1].name, query) {
            Some(score) => seq![(score as i128, (n - 1) as usize)],
            None => seq![],
        }
    }
}

/// `r` lists the nodes of `s` named by the positions of ranking `p`.
pub open spec fn picks(r: Seq<NodeValue>, s: Seq<NodeValue>, p: Seq<(i128, usize)>) -> bool {
    &&& r.len() == p.len()
    &&& forall|i: int| 0 <= i < p.len() ==> p[i].1 < s.len() && #[trigger] r[i] == s[p[i].1 as int]
}

/// Fuzzy search over `nodes`: the nodes whose name matches `query`, best
/// score first; equal scores keep the nodes' order.
pub fn fuzzy_rank(nodes: Vec<Node>, query: &str) -> (r: Vec<Node>)
    ensures
        exists|p: Seq<(i128, usize)>|
            {
                &&& ranked(p)
                &&& p.to_multiset() == scored(
                    node_values(nodes@),
                    query@,
                    nodes@.len() as int,
                ).to_multiset()
                &&& picks(node_values(r@), node_values(nodes@), p)
            },
{
    let ghost all = node_values(nodes@);
    let mut pairs: Vec<(i128, usize)> = Vec::new();
    let mut i: usize = 0;
    while i < nodes.len()
        invariant
            i <= nodes@.len(),
            all == node_values(nodes@),
            pairs@ == scored(all, query@, i as int),
            forall|k: int| 0 <= k < pairs@.len() ==> #[trigger] pairs@[k].1 < i,
        decreases nodes@.len() - i,
    {
        match fuzzy_score(nodes[i].name.as_str(), query) {
            Some(score) => {
                pairs.push((score as i128, i));
                assert(pairs@ =~= scored(all, query@, i + 1));
            },
            None => {
                assert(pairs@ =~= scored(all, query@, i + 1));
            },
        }
        i = i + 1;
    }
    let ranking = rank(pairs);
    proof {
        assert forall|k: int| 0 <= k < ranking@.len() implies #[trigger] ranking@[k].1 < nodes@.len() by {
            assert(ranking@.contains(ranking@[k]));
            assert(ranking@.to_multiset().count(ranking@[k]) > 0);
            assert(pairs@.to_multiset().count(ranking@[k]) > 0);
            assert(pairs@.contains(ranking@[k]));
        }
    }
    let mut out: Vec<Node> = Vec::new();
    let mut k: usize = 0;
    while k < ranking.len()
        invariant
            k <= ranking@.len(),
            all == node_values(nodes@),
            forall|j: int| 0 <= j < ranking@.len() ==> #[trigger] ranking@[j].1 < nodes@.len(),
            out@.len() == k,
            forall|j: int| 0 <= j < k ==> (#[trigger] out@[j])@ == all[ranking@[j].1 as int],
        decreases ranking@.len() - k,
    {
        let at = ranking[k].1;
        out.push(nodes[at].duplicate());
        k = k + 1;
    }
    proof {
        assert(picks(node_values(out@), all, ranking@));
    }
    out
}

/// What [`scored`] lists: each pair is a position below `n` whose node
/// matches, with that node's score; the positions rise; and every matching
/// position below `n` is listed.
proof fn lemma_scored(s: Seq<NodeValue>, query: Seq<char>, n: int)
    requires
        0 <= n <= s.len(),
        n <= usize::MAX,
    ensures
        forall|i: int|
            0 <= i < scored(s, query, n).len() ==> {
                let e = #[trigger] scored(s, query, n)[i];
                &&& 0 <= e.1 < n
                &&& skim_score(s[e.1 as int].name, query) matches Some(x) && x == e.0
            },
        forall|i: int, j: int|
            0 <= i < j < scored(s, query, n).len() ==> #[trigger] scored(s, query, n)[i].1
                < #[trigger] scored(s, query, n)[j].1,
        forall|k: int|
            0 <= k < n && (#[trigger] skim_score(s[k].name, query)) is Some ==> exists|i: int|
                0 <= i < scored(s, query, n).len() && #[trigger] scored(s, query, n)[i].1 == k,
    decreases n,
{
    if n > 0 {
        lemma_scored(s, query, n - 1);
        let prev = scored(s, query, n - 1);
        let cur = scored(s, query, n);
        assert forall|k: int|
            0 <= k < n && (#[trigger] skim_score(s[k].name, query)) is Some implies exists|i: int|
                0 <= i < cur.len() && #[trigger] cur[i].1 == k by {
            if k < n - 1 {
                let i = choose|i: int| 0 <= i < prev.len() && #[trigger] prev[i].1 == k;
                assert(cur[i] == prev[i]);
            } else {
                assert(cur[prev.len() as int].1 == k);
            }
        }
        assert forall|i: int| 0 <= i < cur.len() && i < prev.len() implies #[trigger] cur[i] == prev[i] by {}
    }
}

/// Fuzzy search lists each node whose name matches the query exactly once
/// and no other, best score first: whatever [`fuzzy_rank`] returns, read
/// through the ranking its contract names, gives every listed node its
/// score, never lists a position twice, lists every matching position, and
/// orders the scores from highest to lowest.
pub proof fn lemma_fuzzy_rank_lists_matches_best_first(
    s: Seq<NodeValue>,
    query: Seq<char>,
    r: Seq<NodeValue>,
    p: Seq<(i128, usize)>,
)
    requires
        s.len() <= usize::MAX,
        ranked(p),
        p.to_multiset() == scored(s, query, s.len() as int).to_multiset(),
        picks(r, s, p),
    ensures
        forall|i: int|
            0 <= i < r.len() ==> (#[trigger] skim_score(r[i].name, query) matches Some(x) && x
                == p[i].0),
        forall|i: int, j: int| 0 <= i < j < p.len() ==> #[trigger] p[i].1 != #[trigger] p[j].1,
        forall|k: int|
            0 <= k < s.len() && (#[trigger] skim_score(s[k].name, query)) is Some ==> exists|i: int|
                0 <= i < p.len() && #[trigger] p[i].1 == k,
        forall|i: int, j: int| 0 <= i < j < p.len() ==> #[trigger] p[i].0 >= #[trigger] p[j].0,
{
    let sc = scored(s, query, s.len() as int);
    lemma_scored(s, query, s.len() as int);
    assert forall|i: int| 0 <= i < p.len() implies #[trigger] sc.contains(p[i]) by {
        assert(p.contains(p[i]));
        assert(p.to_multiset().count(p[i]) > 0);
    }
    assert forall|i: int| 0 <= i < r.len() implies (#[trigger] skim_score(r[i].name, query) matches Some(x) && x
        == p[i].0) by {
        assert(sc.contains(p[i]));
        let a = choose|a: int| 0 <= a < sc.len() && sc[a] == p[i];
        assert(sc[a] == p[i]);
    }
    assert(sc.no_duplicates()) by {
        assert forall|a: int, b: int| 0 <= a < sc.len() && 0 <= b < sc.len() && a != b implies sc[a] != sc[b] by {
            if a < b {
                assert(sc[a].1 < sc[b].1);
            } else {
                assert(sc[b].1 < sc[a].1);
            }
        }
    }
    sc.lemma_multiset_has_no_duplicates();
    p.lemma_multiset_has_no_duplicates_conv();
    assert forall|i: int, j: int| 0 <= i < j < p.len() implies #[trigger] p[i].1 != #[trigger] p[j].1 by {
        if p[i].1 == p[j].1 {
            assert(sc.contains(p[i]));
            assert(sc.contains(p[j]));
            let a = choose|a: int| 0 <= a < sc.len() && sc[a] == p[i];
            let b = choose|b: int| 0 <= b < sc.len() && sc[b] == p[j];
            assert(sc[a] == p[i]);
            assert(sc[b] == p[j]);
            assert(p[i] == p[j]);
        }
    }
    assert forall|k: int|
        0 <= k < s.len() && (#[trigger] skim_score(s[k].name, query)) is Some implies exists|i: int|
            0 <= i < p.len() && #[trigger] p[i].1 == k by {
        let a = choose|a: int| 0 <= a < sc.len() && #[trigger] sc[a].1 == k;
        assert(sc.contains(sc[a]));
        assert(sc.to_multiset().count(sc[a]) > 0);
        assert(p.contains(sc[a]));
        let i = choose|i: int| 0 <= i < p.len() && p[i] == sc[a];
        assert(p[i].1 == k);
    }
    assert forall|i: int, j: int| 0 <= i < j < p.len() implies #[trigger] p[i].0 >= #[trigger] p[j].0 by {
        assert(!crate::ranking::ranks_before(p[j], p[i]));
    }
}

/// SHA-256 of `data`.
pub uninterp spec fn sha256(data: Seq<u8>) -> Seq<u8>;

/// `sha2::Sha256::digest` of `data`, as bytes: the 32-byte SHA-256 digest.
/// The contract names it and gives its length.
#[verifier::external_body]
fn sha256_digest(data: &[u8]) -> (d: Vec<u8>)
    ensures
        d@ == sha256(data@),
        d@.len() == 32,
{
    <sha2::Sha256 as sha2::Digest>::digest(data).to_vec()
}

/// The lowercase hexadecimal digit of `n` (below 16).
pub open spec fn hex_digit(n: u8) -> char {
    if n < 10 {
        (48 + n) as char
    } else {
        (87 + n) as char
    }
}

/// Two lowercase hexadecimal digits per byte (`{:02x}`).
pub open spec fn hex_of(bytes: Seq<u8>) -> Seq<char>
    decreases bytes.len(),
{
    if bytes.len() == 0 {
        seq![]
    } else {
        seq![hex_digit(bytes[0] / 16), hex_digit(bytes[0] % 16)] + hex_of(bytes.drop_first())
    }
}

/// The hash a file's content is recorded under: the first 8 bytes of the
/// SHA-256 of its UTF-8 bytes, in lowercase hexadecimal.
pub open spec fn content_hash_spec(content: Seq<char>) -> Seq<char> {
    hex_of(sha256(encode_utf8(content)).subrange(0, 8))
}

fn hex_char(n: u8) -> (c: char)
    requires
        n < 16,
    ensures
        c == hex_digit(n),
{
    if n < 10 {
        (48u8 + n) as char
    } else {
        (87u8 + n) as char
    }
}

/// Hashes a file's content for incremental indexing: the first 16
/// hexadecimal digits of its SHA-256.
pub fn content_hash(content: &str) -> (h: String)
    ensures
        h@ == content_hash_spec(content@),
        h@.len() == 16,
        forall|i: int| 0 <= i < 16 ==> is_hex_digit(#[trigger] h@[i]),
{
    let digest = sha256_digest(content.as_bytes());
    let ghost head = digest@.subrange(0, 8);
    assert(head.subrange(0, 8) =~= head);
    let mut out: Vec<char> = Vec::new();
    let mut i: usize = 0;
    while i < 8
        invariant
            i <= 8,
            digest@.len() == 32,
            head == digest@.subrange(0, 8),
            out@ + hex_of(head.subrange(i as int, 8)) == hex_of(head),
        decreases 8 - i,
    {
        let b = digest[i];
        let ghost rest = head.subrange(i as int, 8);
        assert(rest[0] == b);
        assert(rest.drop_first() =~= head.subrange(i + 1, 8));
        out.push(hex_char(b / 16));
        out.push(hex_char(b % 16));
        assert(out@ + hex_of(head.subrange(i + 1, 8)) =~= hex_of(head));
        i = i + 1;
    }
    assert(head.subrange(8, 8) =~= Seq::<u8>::empty());
    assert(out@ =~= hex_of(head));
    proof {
        lemma_hex_of(head);
    }
    string_of_chars(out.as_slice())
}

/// Whether a file must be indexed again: no hash is recorded for it, or
/// the recorded one differs from its content's hash.
pub open spec fn stale(stored: Option<Seq<char>>, content: Seq<char>) -> bool {
    stored != Some(content_hash_spec(content))
}

/// Whether a file whose recorded hash is `stored` must be indexed again.
pub fn is_stale(stored: Option<&str>, content: &str) -> (r: bool)
    ensures
        r == stale(
            match stored {
                Some(s) => Some(s@),
                None => None,
            },
            content@,
        ),
{
    let current = content_hash(content);
    match stored {
        Some(s) => !str_eq(s, current.as_str()),
        None => true,
    }
}

/// A lowercase hexadecimal digit.
pub open spec fn is_hex_digit(c: char) -> bool {
    ('0' <= c <= '9') || ('a' <= c <= 'f')
}

/// Hexadecimal text is two digits per byte.
proof fn lemma_hex_of(bytes: Seq<u8>)
    ensures
        hex_of(bytes).len() == 2 * bytes.len(),
        forall|i: int| 0 <= i < hex_of(bytes).len() ==> is_hex_digit(#[trigger] hex_of(bytes)[i]),
    decreases bytes.len(),
{
    if bytes.len() > 0 {
        let t = bytes.drop_first();
        lemma_hex_of(t);
        let b = bytes[0];
        let h = seq![hex_digit(b / 16), hex_digit(b % 16)];
        assert(hex_of(bytes) == h + hex_of(t));
        assert(is_hex_digit(hex_digit(b / 16)) && is_hex_digit(hex_digit(b % 16))) by {
            assert(b / 16 < 16 && b % 16 < 16);
            assert(forall|n: u8| n < 16 ==> #[trigger] is_hex_digit(hex_digit(n))) by {
                assert forall|n: u8| n < 16 implies #[trigger] is_hex_digit(hex_digit(n)) by {
                    if n < 10 {
                        assert(48 <= 48 + n <= 57);
                    } else {
                        assert(97 <= 87 + n <= 102);
                    }
                }
            }
        }
        assert forall|i: int| 0 <= i < hex_of(bytes).len() implies is_hex_digit(#[trigger] hex_of(bytes)[i]) by {
            if i >= 2 {
                assert(hex_of(bytes)[i] == hex_of(t)[i - 2]);
            }
        }
    }
}

/// An edge of a parse (positions into its node list) can be stored: both
/// ends were stored and got positive ids.
pub open spec fn edge_resolves(e: (usize, usize, EdgeKind), ids: Seq<i64>) -> bool {
    e.0 < ids.len() && e.1 < ids.len() && ids[e.0 as int] > 0 && ids[e.1 as int] > 0
}

/// The storable edges of `edges`, in order, with their ends replaced by
/// the ids their nodes were stored under.
pub open spec fn resolved(edges: Seq<(usize, usize, EdgeKind)>, ids: Seq<i64>) -> Seq<
    (i64, i64, EdgeKind),
>
    decreases edges.len(),
{
    if edges.len() == 0 {
        seq![]
    } else {
        let e = edges.last();
        resolved(edges.drop_last(), ids) + if edge_resolves(e, ids) {
            seq![(ids[e.0 as int], ids[e.1 as int], e.2)]
        } else {
            seq![]
        }
    }
}

/// The edges of a parse as database edges: each edge whose two nodes were
/// stored (positive ids) links those ids; the others are dropped.
pub fn resolve_edges(edges: &Vec<(usize, usize, EdgeKind)>, ids: &Vec<i64>) -> (r: Vec<
    (i64, i64, EdgeKind),
>)
    ensures
        r@ == resolved(edges@, ids@),
{
    let mut out: Vec<(i64, i64, EdgeKind)> = Vec::new();
    let mut i: usize = 0;
    while i < edges.len()
        invariant
            i <= edges@.len(),
            out@ == resolved(edges@.subrange(0, i as int), ids@),
        decreases edges@.len() - i,
    {
        let (from, to, kind) = edges[i];
        let ghost t = edges@.subrange(0, i + 1);
        assert(t.drop_last() =~= edges@.subrange(0, i as int));
        assert(t.last() == (from, to, kind));
        if from < ids.len() && to < ids.len() && ids[from] > 0 && ids[to] > 0 {
            out.push((ids[from], ids[to], kind));
            assert(out@ =~= resolved(t, ids@));
        } else {
            assert(out@ =~= resolved(t, ids@));
        }
        i = i + 1;
    }
    assert(edges@.subrange(0, edges@.len() as int) =~= edges@);
    out
}

/// A file whose recorded hash is its content's hash needs no new index;
/// a file without a recorded hash does.
pub proof fn lemma_fresh_after_store(content: Seq<char>)
    ensures
        !stale(Some(content_hash_spec(content)), content),
        stale(None, content),
{
}

/// Every stored edge links two positive ids that the parse's nodes were
/// stored under, and no more edges come out than went in.
pub proof fn lemma_resolved_links_stored_ids(edges: Seq<(usize, usize, EdgeKind)>, ids: Seq<i64>)
    ensures
        resolved(edges, ids).len() <= edges.len(),
        forall|k: int|
            0 <= k < resolved(edges, ids).len() ==> {
                let e = #[trigger] resolved(edges, ids)[k];
                e.0 > 0 && e.1 > 0 && ids.contains(e.0) && ids.contains(e.1)
            },
    decreases edges.len(),
{
    if edges.len() > 0 {
        let p = edges.drop_last();
        lemma_resolved_links_stored_ids(p, ids);
        let rp = resolved(p, ids);
        let r = resolved(edges, ids);
        let e = edges.last();
        assert forall|k: int| 0 <= k < r.len() implies {
            let x = #[trigger] r[k];
            x.0 > 0 && x.1 > 0 && ids.contains(x.0) && ids.contains(x.1)
        } by {
            if k < rp.len() {
                assert(r[k] == rp[k]);
            } else {
                assert(r[k] == (ids[e.0 as int], ids[e.1 as int], e.2));
                assert(ids[e.0 as int] == r[k].0);
                assert(ids[e.1 as int] == r[k].1);
            }
        }
    }
}

} // verus!
