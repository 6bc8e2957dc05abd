//! Queries over the indexed entities: the FTS5-safe spelling of a keyword
//! query, the filters a symbol search applies (entity kind, language,
//! paths), and the language names a search accepts.
use vstd::prelude::*;
use crate::model::{Language, Node, NodeValue, extension_language, language_name, language_of_key, lemma_extension_table, lowercase, node_kind_name, node_values, to_lowercase, lemma_node_values_push};
use crate::text::{chars_of, contains_spec, is_white_space, is_word, join_words, joined, lemma_words_are_words, owned, split_words, str_contains, str_ends_with, str_eq, str_starts_with, string_of_chars, words};

verus! {

broadcast use vstd::string::group_string_axioms;

/// A character FTS5 reads as query syntax: `"`, `(`, `)`, `:`, `*` and `-`.
pub open spec fn fts_special(c: char) -> bool {
    c == '"' || c == '(' || c == ')' || c == ':' || c == '*' || c == '-'
}

/// `s` with every `\|` and every other `|` spelled ` OR `.
pub open spec fn or_spelled(s: Seq<char>) -> Seq<char>
    decreases s.len(),
{
    if s.len() == 0 {
        seq![]
    } else if s.len() >= 2 && s[0] == '\\' && s[1] == '|' {
        seq![' ', 'O', 'R', ' '] + or_spelled(s.subrange(2, s.len() as int))
    } else if s[0] == '|' {
        seq![' ', 'O', 'R', ' '] + or_spelled(s.drop_first())
    } else {
        seq![s[0]] + or_spelled(s.drop_first())
    }
}

/// `s` with every FTS5 syntax character replaced by a space.
pub open spec fn fts_blanked(s: Seq<char>) -> Seq<char> {
    s.map_values(|c: char| if fts_special(c) { ' ' } else { c })
}

/// The word `OR`.
pub open spec fn or_word() -> Seq<char> {
    seq!['O', 'R']
}

/// The words `ws` without each `OR` that would join nothing on its left:
/// one that comes first, or right after another kept `OR`.
pub open spec fn or_joined(ws: Seq<Seq<char>>) -> Seq<Seq<char>>
    decreases ws.len(),
{
    if ws.len() == 0 {
        seq![]
    } else {
        let p = or_joined(ws.drop_last());
        if ws.last() == or_word() && (p.len() == 0 || p.last() == or_word()) {
            p
        } else {
            p.push(ws.last())
        }
    }
}

/// The words `ws` without the `OR`s that end them.
pub open spec fn without_trailing_or(ws: Seq<Seq<char>>) -> Seq<Seq<char>>
    decreases ws.len(),
{
    if ws.len() > 0 && ws.last() == or_word() {
        without_trailing_or(ws.drop_last())
    } else {
        ws
    }
}

/// The FTS5-safe form of a keyword query: alternations spelled with `OR`,
/// syntax characters dropped, every `OR` left without a term on either side
/// dropped (so a single remaining term comes back bare), and the remaining
/// words separated by single spaces.
pub open spec fn fts_query(raw: Seq<char>) -> Seq<char> {
    joined(without_trailing_or(or_joined(words(fts_blanked(or_spelled(raw))))))
}

/// Rewrites a keyword query into FTS5-safe syntax: `foo\|bar` and `foo|bar`
/// become `foo OR bar`, the characters FTS5 treats as operators
/// (`"` `(` `)` `:` `*` `-`) are dropped, white space is collapsed to
/// single spaces between words, and an `OR` with no term on one side is
/// dropped, so that `foo|` gives the bare term `foo`.
pub fn sanitize_fts5_query(raw: &str) -> (r: String)
    ensures
        r@ == fts_query(raw@),
{
    let v = chars_of(raw);
    let n = v.len();
    let mut o: Vec<char> = Vec::new();
    let mut i: usize = 0;
    assert(v@.subrange(0, n as int) =~= v@);
    while i < n
        invariant
            n == v@.len(),
            i <= n,
            or_spelled(v@) == o@ + or_spelled(v@.subrange(i as int, n as int)),
        decreases n - i,
    {
        let ghost rest = v@.subrange(i as int, n as int);
        if v[i] == '\\' && i + 1 < n && v[i + 1] == '|' {
            assert(rest.subrange(2, rest.len() as int) =~= v@.subrange(i + 2, n as int));
            o.push(' ');
            o.push('O');
            o.push('R');
            o.push(' ');
            assert(or_spelled(v@) =~= o@ + or_spelled(v@.subrange(i + 2, n as int)));
            i = i + 2;
        } else if v[i] == '|' {
            assert(rest.drop_first() =~= v@.subrange(i + 1, n as int));
            o.push(' ');
            o.push('O');
            o.push('R');
            o.push(' ');
            assert(or_spelled(v@) =~= o@ + or_spelled(v@.subrange(i + 1, n as int)));
            i = i + 1;
        } else {
            assert(rest.drop_first() =~= v@.subrange(i + 1, n as int));
            o.push(v[i]);
            assert(or_spelled(v@) =~= o@ + or_spelled(v@.subrange(i + 1, n as int)));
            i = i + 1;
        }
    }
    assert(v@.subrange(n as int, n as int) =~= Seq::<char>::empty());
    assert(o@ =~= or_spelled(v@));
    let mut b: Vec<char> = Vec::new();
    let mut k: usize = 0;
    while k < o.len()
        invariant
            k <= o@.len(),
            b@ =~= fts_blanked(o@.subrange(0, k as int)),
        decreases o@.len() - k,
    {
        let c = o[k];
        let d = if c == '"' || c == '(' || c == ')' || c == ':' || c == '*' || c == '-' {
            ' '
        } else {
            c
        };
        b.push(d);
        k = k + 1;
    }
    assert(o@.subrange(0, o@.len() as int) =~= o@);
    let cleaned = string_of_chars(b.as_slice());
    let ws = split_words(cleaned.as_str());
    let ghost wv = ws@.map_values(|w: String| w@);
    proof {
        reveal_strlit("OR");
        assert("OR"@ =~= or_word());
    }
    let mut kept: Vec<String> = Vec::new();
    let mut i: usize = 0;
    while i < ws.len()
        invariant
            i <= ws@.len(),
            wv == ws@.map_values(|w: String| w@),
            "OR"@ == or_word(),
            kept@.map_values(|w: String| w@) == or_joined(wv.subrange(0, i as int)),
        decreases ws@.len() - i,
    {
        let ghost before = kept@.map_values(|w: String| w@);
        let ghost t = wv.subrange(0, i + 1);
        assert(t.drop_last() =~= wv.subrange(0, i as int));
        assert(t.last() == ws@[i as int]@);
        let w = &ws[i];
        let dangling = str_eq(w.as_str(), "OR") && (kept.len() == 0 || str_eq(
            kept[kept.len() - 1].as_str(),
            "OR",
        ));
        if !dangling {
            kept.push(w.clone());
            assert(kept@.map_values(|w: String| w@) =~= before.push(t.last()));
        }
        i = i + 1;
    }
    assert(wv.subrange(0, ws@.len() as int) =~= wv);
    let ghost joined_words = kept@.map_values(|w: String| w@);
    while kept.len() > 0 && str_eq(kept[kept.len() - 1].as_str(), "OR")
        invariant
            "OR"@ == or_word(),
            without_trailing_or(kept@.map_values(|w: String| w@)) == without_trailing_or(
                joined_words,
            ),
        decreases kept@.len(),
    {
        let ghost before = kept@.map_values(|w: String| w@);
        kept.pop();
        assert(kept@.map_values(|w: String| w@) =~= before.drop_last());
    }
    assert(without_trailing_or(kept@.map_values(|w: String| w@)) == kept@.map_values(
        |w: String| w@,
    ));
    join_words(&kept)
}

/// A character that survives sanitizing: neither `|` nor FTS5 syntax.
pub open spec fn fts_safe(c: char) -> bool {
    c != '|' && !fts_special(c)
}

proof fn lemma_or_spelled_safe_bars(s: Seq<char>)
    ensures
        forall|i: int| 0 <= i < or_spelled(s).len() ==> #[trigger] or_spelled(s)[i] != '|',
    decreases s.len(),
{
    if s.len() > 0 {
        let (head, tail) = if s.len() >= 2 && s[0] == '\\' && s[1] == '|' {
            (seq![' ', 'O', 'R', ' '], s.subrange(2, s.len() as int))
        } else if s[0] == '|' {
            (seq![' ', 'O', 'R', ' '], s.drop_first())
        } else {
            (seq![s[0]], s.drop_first())
        };
        lemma_or_spelled_safe_bars(tail);
        let o = or_spelled(s);
        assert(o == head + or_spelled(tail));
        assert forall|i: int| 0 <= i < o.len() implies #[trigger] o[i] != '|' by {
            if i >= head.len() {
                assert(o[i] == or_spelled(tail)[i - head.len()]);
            }
        }
    }
}

proof fn lemma_or_spelled_identity(s: Seq<char>)
    requires
        forall|i: int| 0 <= i < s.len() ==> #[trigger] s[i] != '|',
    ensures
        or_spelled(s) == s,
    decreases s.len(),
{
    if s.len() > 0 {
        lemma_or_spelled_identity(s.drop_first());
        assert(seq![s[0]] + s.drop_first() =~= s);
    }
}

proof fn lemma_words_keep_safe(s: Seq<char>)
    requires
        forall|i: int| 0 <= i < s.len() ==> fts_safe(#[trigger] s[i]),
    ensures
        forall|k: int, j: int|
            0 <= k < words(s).len() && 0 <= j < words(s)[k].len() ==> fts_safe(
                #[trigger] words(s)[k][j],
            ),
    decreases s.len(),
{
    if s.len() > 0 {
        let p = s.drop_last();
        lemma_words_keep_safe(p);
        lemma_words_are_words(p);
        let w = words(p);
        let c = s.last();
        assert(fts_safe(s[s.len() - 1]));
        if !is_white_space(c) && s.len() >= 2 && !is_white_space(s[s.len() - 2]) {
            assert(p.last() == s[s.len() - 2]);
            assert forall|k: int, j: int|
                0 <= k < words(s).len() && 0 <= j < words(s)[k].len() implies fts_safe(
                #[trigger] words(s)[k][j],
            ) by {
                if k == w.len() - 1 {
                    if j < w.last().len() {
                        assert(words(s)[k][j] == w[k][j]);
                    } else {
                        assert(words(s)[k][j] == c);
                    }
                } else {
                    assert(words(s)[k] == w[k]);
                }
            }
        } else if !is_white_space(c) {
            assert forall|k: int, j: int|
                0 <= k < words(s).len() && 0 <= j < words(s)[k].len() implies fts_safe(
                #[trigger] words(s)[k][j],
            ) by {
                if k < w.len() {
                    assert(words(s)[k] == w[k]);
                } else {
                    assert(words(s)[k] =~= seq![c]);
                }
            }
        }
    }
}

proof fn lemma_joined_safe(ws: Seq<Seq<char>>)
    requires
        forall|k: int, j: int| 0 <= k < ws.len() && 0 <= j < ws[k].len() ==> fts_safe(#[trigger] ws[k][j]),
    ensures
        forall|i: int| 0 <= i < joined(ws).len() ==> fts_safe(#[trigger] joined(ws)[i]),
    decreases ws.len(),
{
    if ws.len() == 1 {
        assert forall|i: int| 0 <= i < joined(ws).len() implies fts_safe(#[trigger] joined(ws)[i]) by {
            assert(joined(ws)[i] == ws[0][i]);
        }
    } else if ws.len() > 1 {
        let a = ws.drop_last();
        lemma_joined_safe(a);
        let j = joined(ws);
        assert(j == joined(a) + seq![' '] + ws.last());
        assert forall|i: int| 0 <= i < j.len() implies fts_safe(#[trigger] j[i]) by {
            if i < joined(a).len() {
                assert(j[i] == joined(a)[i]);
            } else if i == joined(a).len() {
                assert(j[i] == ' ');
            } else {
                assert(j[i] == ws[ws.len() - 1][i - joined(a).len() - 1]);
            }
        }
    }
}

proof fn lemma_words_of_word(w: Seq<char>)
    requires
        is_word(w),
    ensures
        words(w) == seq![w],
    decreases w.len(),
{
    let p = w.drop_last();
    if p.len() == 0 {
        assert(words(p) =~= Seq::<Seq<char>>::empty());
        assert(w =~= seq![w.last()]);
    } else {
        assert(is_word(p) && p.last() == w[w.len() - 2]) by {
            assert forall|j: int| 0 <= j < p.len() implies !is_white_space(#[trigger] p[j]) by {
                assert(p[j] == w[j]);
            }
        }
        lemma_words_of_word(p);
        assert(p.push(w.last()) =~= w);
        assert(words(w) =~= seq![w]);
    }
}

proof fn lemma_words_append_word(a: Seq<char>, w: Seq<char>)
    requires
        is_word(w),
    ensures
        words(a + seq![' '] + w) == words(a).push(w),
    decreases w.len(),
{
    let s = a + seq![' '] + w;
    let p = w.drop_last();
    assert(s.drop_last() =~= a + seq![' '] + p);
    assert(s.last() == w.last());
    if p.len() == 0 {
        let t = a + seq![' '];
        assert(t.drop_last() =~= a);
        assert(words(t) == words(a));
        assert(s.drop_last() =~= t);
        assert(s[s.len() - 2] == ' ');
        assert(w =~= seq![w.last()]);
    } else {
        assert(is_word(p)) by {
            assert forall|j: int| 0 <= j < p.len() implies !is_white_space(#[trigger] p[j]) by {
                assert(p[j] == w[j]);
            }
        }
        lemma_words_append_word(a, p);
        assert(s[s.len() - 2] == w[w.len() - 2]);
        assert(p.push(w.last()) =~= w);
        assert(words(a).push(p).update(words(a).len() as int, p.push(w.last())) =~= words(a).push(w));
    }
}

proof fn lemma_words_of_joined(ws: Seq<Seq<char>>)
    requires
        forall|k: int| 0 <= k < ws.len() ==> is_word(#[trigger] ws[k]),
    ensures
        words(joined(ws)) == ws,
    decreases ws.len(),
{
    if ws.len() == 0 {
        assert(words(joined(ws)) =~= ws);
    } else if ws.len() == 1 {
        assert(is_word(ws[0]));
        lemma_words_of_word(ws[0]);
        assert(words(joined(ws)) =~= ws);
    } else {
        let a = ws.drop_last();
        assert forall|k: int| 0 <= k < a.len() implies is_word(#[trigger] a[k]) by {
            assert(a[k] == ws[k]);
        }
        lemma_words_of_joined(a);
        assert(is_word(ws[ws.len() - 1]));
        lemma_words_append_word(joined(a), ws.last());
        assert(a.push(ws.last()) =~= ws);
    }
}

/// Every word of `ws` is a word made of characters that survive sanitizing.
pub open spec fn good_words(ws: Seq<Seq<char>>) -> bool {
    forall|k: int|
        0 <= k < ws.len() ==> is_word(#[trigger] ws[k]) && forall|j: int|
            0 <= j < ws[k].len() ==> fts_safe(#[trigger] ws[k][j])
}

/// No `OR` comes first or right after another `OR`.
pub open spec fn or_tidy(ws: Seq<Seq<char>>) -> bool {
    &&& (ws.len() > 0 ==> ws[0] != or_word())
    &&& forall|i: int| 0 < i < ws.len() && #[trigger] ws[i] == or_word() ==> ws[i - 1] != or_word()
}

proof fn lemma_or_joined(ws: Seq<Seq<char>>)
    ensures
        good_words(ws) ==> good_words(or_joined(ws)),
        or_tidy(or_joined(ws)),
        or_tidy(ws) ==> or_joined(ws) == ws,
    decreases ws.len(),
{
    if ws.len() > 0 {
        let a = ws.drop_last();
        lemma_or_joined(a);
        let p = or_joined(a);
        let w = ws.last();
        if good_words(ws) {
            assert forall|k: int| 0 <= k < a.len() implies is_word(#[trigger] a[k]) && forall|j: int|
                0 <= j < a[k].len() ==> fts_safe(#[trigger] a[k][j]) by {
                assert(a[k] == ws[k]);
            }
            assert(is_word(ws[ws.len() - 1]));
        }
        if !(w == or_word() && (p.len() == 0 || p.last() == or_word())) {
            let q = p.push(w);
            assert forall|i: int| 0 < i < q.len() && #[trigger] q[i] == or_word() implies q[i - 1] != or_word() by {
                if i < p.len() {
                    assert(q[i] == p[i] && q[i - 1] == p[i - 1]);
                } else {
                    assert(q[i - 1] == p.last());
                }
            }
            if p.len() == 0 {
                assert(q[0] == w);
            } else {
                assert(q[0] == p[0]);
            }
        }
        if or_tidy(ws) {
            assert(or_tidy(a)) by {
                assert forall|i: int| 0 < i < a.len() && #[trigger] a[i] == or_word() implies a[i - 1] != or_word() by {
                    assert(a[i] == ws[i] && a[i - 1] == ws[i - 1]);
                }
                if a.len() > 0 {
                    assert(a[0] == ws[0]);
                }
            }
            if w == or_word() {
                assert(ws.len() > 1);
                assert(ws[ws.len() - 1] == or_word());
                assert(a.last() == ws[ws.len() - 2]);
            }
            assert(a.push(w) =~= ws);
        }
    }
}

proof fn lemma_without_trailing_or(ws: Seq<Seq<char>>)
    ensures
        exists|n: int|
            0 <= n <= ws.len() && #[trigger] without_trailing_or(ws) == ws.subrange(0, n),
        without_trailing_or(ws).len() > 0 ==> without_trailing_or(ws).last() != or_word(),
        ws.len() == 0 || ws.last() != or_word() ==> without_trailing_or(ws) == ws,
    decreases ws.len(),
{
    if ws.len() > 0 && ws.last() == or_word() {
        lemma_without_trailing_or(ws.drop_last());
        let n = choose|n: int|
            0 <= n <= ws.drop_last().len() && #[trigger] without_trailing_or(ws.drop_last())
                == ws.drop_last().subrange(0, n);
        assert(ws.drop_last().subrange(0, n) =~= ws.subrange(0, n));
    } else {
        assert(ws.subrange(0, ws.len() as int) =~= ws);
    }
}

proof fn lemma_prefix_keeps(ws: Seq<Seq<char>>, n: int)
    requires
        0 <= n <= ws.len(),
    ensures
        good_words(ws) ==> good_words(ws.subrange(0, n)),
        or_tidy(ws) ==> or_tidy(ws.subrange(0, n)),
{
    let q = ws.subrange(0, n);
    if good_words(ws) {
        assert forall|k: int| 0 <= k < q.len() implies is_word(#[trigger] q[k]) && forall|j: int|
            0 <= j < q[k].len() ==> fts_safe(#[trigger] q[k][j]) by {
            assert(q[k] == ws[k]);
        }
    }
    if or_tidy(ws) {
        assert forall|i: int| 0 < i < q.len() && #[trigger] q[i] == or_word() implies q[i - 1] != or_word() by {
            assert(q[i] == ws[i] && q[i - 1] == ws[i - 1]);
        }
        if q.len() > 0 {
            assert(q[0] == ws[0]);
        }
    }
}

/// The words sanitizing keeps: good words, tidy, and not ending in `OR`.
proof fn lemma_fts_words(raw: Seq<char>)
    ensures
        ({
            let ws = without_trailing_or(or_joined(words(fts_blanked(or_spelled(raw)))));
            &&& good_words(ws)
            &&& or_tidy(ws)
            &&& (ws.len() > 0 ==> ws.last() != or_word())
            &&& fts_query(raw) == joined(ws)
        }),
{
    let o = or_spelled(raw);
    lemma_or_spelled_safe_bars(raw);
    let c = fts_blanked(o);
    assert forall|i: int| 0 <= i < c.len() implies fts_safe(#[trigger] c[i]) by {
        assert(o[i] != '|');
    }
    lemma_words_keep_safe(c);
    lemma_words_are_words(c);
    let w = words(c);
    assert(good_words(w));
    lemma_or_joined(w);
    let j = or_joined(w);
    lemma_without_trailing_or(j);
    let n = choose|n: int| 0 <= n <= j.len() && #[trigger] without_trailing_or(j) == j.subrange(0, n);
    lemma_prefix_keeps(j, n);
}

/// Sanitizing leaves no `|` and no FTS5 syntax character behind.
pub proof fn lemma_fts_query_safe(raw: Seq<char>)
    ensures
        forall|i: int| 0 <= i < fts_query(raw).len() ==> fts_safe(#[trigger] fts_query(raw)[i]),
{
    lemma_fts_words(raw);
    let ws = without_trailing_or(or_joined(words(fts_blanked(or_spelled(raw)))));
    lemma_joined_safe(ws);
}

proof fn lemma_joined_shape(ws: Seq<Seq<char>>)
    requires
        forall|k: int| 0 <= k < ws.len() ==> is_word(#[trigger] ws[k]),
    ensures
        joined(ws).len() > 0 ==> !is_white_space(joined(ws)[0]) && !is_white_space(
            joined(ws).last(),
        ),
        forall|i: int|
            0 <= i < joined(ws).len() && is_white_space(#[trigger] joined(ws)[i]) ==> joined(ws)[i]
                == ' ' && 0 < i < joined(ws).len() - 1 && !is_white_space(joined(ws)[i - 1])
                && !is_white_space(joined(ws)[i + 1]),
    decreases ws.len(),
{
    if ws.len() == 1 {
        assert(is_word(ws[0]));
    } else if ws.len() > 1 {
        let a = ws.drop_last();
        assert forall|k: int| 0 <= k < a.len() implies is_word(#[trigger] a[k]) by {
            assert(a[k] == ws[k]);
        }
        lemma_joined_shape(a);
        let w = ws.last();
        assert(is_word(ws[ws.len() - 1]));
        let r = joined(ws);
        let ja = joined(a);
        assert(r == ja + seq![' '] + w);
        assert(a.len() > 0 ==> is_word(a[0]));
        assert(ja.len() > 0) by {
            if a.len() == 1 {
                assert(ja == a[0]);
            }
        }
        assert(r[0] == ja[0]);
        assert(r.last() == w.last());
        assert forall|i: int|
            0 <= i < r.len() && is_white_space(#[trigger] r[i]) implies r[i] == ' ' && 0 < i < r.len()
                - 1 && !is_white_space(r[i - 1]) && !is_white_space(r[i + 1]) by {
            if i < ja.len() {
                assert(r[i] == ja[i]);
                assert(r[i - 1] == ja[i - 1]);
                if i + 1 < ja.len() {
                    assert(r[i + 1] == ja[i + 1]);
                }
            } else if i == ja.len() {
                assert(r[i - 1] == ja.last());
                assert(r[i + 1] == w[0]);
            } else {
                assert(r[i] == w[i - ja.len() - 1]);
            }
        }
    }
}

/// A sanitized query is trimmed and single-spaced: it neither begins nor
/// ends with white space, and its only white space is single spaces between
/// words. Its words are the words of the query once `\|` and `|` are
/// spelled ` OR ` and the operator characters blanked, less each `OR` that
/// joins nothing: they never begin or end with an `OR`, nor hold two in a row.
pub proof fn lemma_fts_query_shape(raw: Seq<char>)
    ensures
        words(fts_query(raw)) == without_trailing_or(or_joined(words(fts_blanked(or_spelled(raw))))),
        ({
            let r = fts_query(raw);
            &&& r.len() > 0 ==> !is_white_space(r[0]) && !is_white_space(r.last())
            &&& forall|i: int|
                0 <= i < r.len() && is_white_space(#[trigger] r[i]) ==> r[i] == ' ' && 0 < i < r.len()
                    - 1 && !is_white_space(r[i - 1]) && !is_white_space(r[i + 1])
            &&& or_tidy(words(r))
            &&& (words(r).len() > 0 ==> words(r).last() != or_word())
        }),
{
    lemma_fts_words(raw);
    let ws = without_trailing_or(or_joined(words(fts_blanked(or_spelled(raw)))));
    lemma_joined_shape(ws);
    lemma_words_of_joined(ws);
}

/// Sanitizing a sanitized query changes nothing.
pub proof fn lemma_fts_query_idempotent(raw: Seq<char>)
    ensures
        fts_query(fts_query(raw)) == fts_query(raw),
{
    let y = fts_query(raw);
    lemma_fts_query_safe(raw);
    assert forall|i: int| 0 <= i < y.len() implies #[trigger] y[i] != '|' by {
        assert(fts_safe(y[i]));
    }
    lemma_or_spelled_identity(y);
    assert(fts_blanked(y) =~= y) by {
        assert forall|i: int| 0 <= i < y.len() implies #[trigger] fts_blanked(y)[i] == y[i] by {
            assert(fts_safe(y[i]));
        }
    }
    lemma_fts_words(raw);
    let ws = without_trailing_or(or_joined(words(fts_blanked(or_spelled(raw)))));
    lemma_words_of_joined(ws);
    lemma_or_joined(ws);
    lemma_without_trailing_or(ws);
}

/// The node's kind is the one asked for, if one was.
pub open spec fn kind_selected(n: NodeValue, kind: Option<Seq<char>>) -> bool {
    match kind {
        Some(k) => node_kind_name(n.kind) == k,
        None => true,
    }
}

/// `p` begins `s`.
pub open spec fn has_prefix(s: Seq<char>, p: Seq<char>) -> bool {
    p.len() <= s.len() && s.subrange(0, p.len() as int) == p
}

/// `p` ends `s`.
pub open spec fn has_suffix(s: Seq<char>, p: Seq<char>) -> bool {
    p.len() <= s.len() && s.subrange(s.len() - p.len(), s.len() as int) == p
}

/// Language `l` answers the language asked for, `want`, compared in lower
/// case: its name, a common short form of it (`rs`, `py`, `ts`, `js`), or
/// for any other request a prefix of its name.
pub open spec fn language_selected(l: Language, want: Seq<char>) -> bool {
    let name = language_name(l);
    let w = lowercase(want);
    ||| name == w
    ||| if w == "rust"@ || w == "rs"@ {
        name == "rust"@
    } else if w == "python"@ || w == "py"@ {
        name == "python"@
    } else if w == "go"@ {
        name == "go"@
    } else if w == "typescript"@ || w == "ts"@ {
        name == "typescript"@
    } else if w == "javascript"@ || w == "js"@ {
        name == "javascript"@
    } else {
        has_prefix(name, w)
    }
}

/// `p` without its trailing slashes (`str::trim_end_matches('/')`).
pub open spec fn without_trailing_slashes(p: Seq<char>) -> Seq<char>
    decreases p.len(),
{
    if p.len() > 0 && p.last() == '/' {
        without_trailing_slashes(p.drop_last())
    } else {
        p
    }
}

/// The last component of path `p` (`std::path::Path::components`, last
/// one, as text), if it has any.
pub uninterp spec fn path_last_component(p: Seq<char>) -> Option<Seq<char>>;

/// `std::path::Path::components` of `p`, the last one, as text
/// (`as_os_str().to_string_lossy()`). The contract names the result.
#[verifier::external_body]
fn last_component(p: &str) -> (r: Option<String>)
    ensures
        match r {
            Some(c) => path_last_component(p@) == Some(c@),
            None => path_last_component(p@) is None,
        },
{
    std::path::Path::new(p).components().last().map(|c| c.as_os_str().to_string_lossy().into_owned())
}

/// A stored file path falls under the path `p` asked for: it starts with
/// `p` (without trailing slashes), contains `p`'s last component, or ends
/// with `p`.
pub open spec fn path_selected(file: Seq<char>, p: Seq<char>) -> bool {
    let norm = without_trailing_slashes(p);
    ||| has_prefix(file, norm)
    ||| (match path_last_component(p) {
        Some(c) => contains_spec(file, c),
        None => false,
    })
    ||| has_suffix(file, norm)
}

/// The file falls under one of the paths asked for (any file, when none is).
pub open spec fn paths_selected(file: Seq<char>, paths: Seq<Seq<char>>) -> bool {
    paths.len() == 0 || exists|i: int| 0 <= i < paths.len() && path_selected(file, #[trigger] paths[i])
}

/// A node passes all three filters of a symbol search.
pub open spec fn node_selected(
    n: NodeValue,
    kind: Option<Seq<char>>,
    lang: Option<Seq<char>>,
    paths: Seq<Seq<char>>,
) -> bool {
    &&& kind_selected(n, kind)
    &&& match lang {
        Some(l) => language_selected(n.language, l),
        None => true,
    }
    &&& paths_selected(n.file_path, paths)
}

/// The nodes of `s` that pass the filters, in order.
pub open spec fn selected(
    s: Seq<NodeValue>,
    kind: Option<Seq<char>>,
    lang: Option<Seq<char>>,
    paths: Seq<Seq<char>>,
) -> Seq<NodeValue>
    decreases s.len(),
{
    if s.len() == 0 {
        seq![]
    } else if node_selected(s.last(), kind, lang, paths) {
        selected(s.drop_last(), kind, lang, paths).push(s.last())
    } else {
        selected(s.drop_last(), kind, lang, paths)
    }
}

/// The text of an optional string.
pub open spec fn opt_view(s: Option<&str>) -> Option<Seq<char>> {
    match s {
        Some(x) => Some(x@),
        None => None,
    }
}

/// `p` without its trailing slashes.
fn trim_slashes(p: &str) -> (r: String)
    ensures
        r@ == without_trailing_slashes(p@),
{
    let v = chars_of(p);
    let mut end = v.len();
    assert(v@.subrange(0, end as int) =~= v@);
    while end > 0 && v[end - 1] == '/'
        invariant
            end <= v@.len(),
            without_trailing_slashes(v@) == without_trailing_slashes(v@.subrange(0, end as int)),
        decreases end,
    {
        assert(v@.subrange(0, end as int).drop_last() =~= v@.subrange(0, end - 1));
        end = end - 1;
    }
    string_of_chars(&v.as_slice()[0..end])
}

/// Whether a stored file path falls under the path `p` asked for.
fn path_matches(file: &str, p: &str) -> (r: bool)
    ensures
        r == path_selected(file@, p@),
{
    let norm = trim_slashes(p);
    if str_starts_with(file, norm.as_str()) {
        return true;
    }
    let in_last = match last_component(p) {
        Some(c) => str_contains(file, c.as_str()),
        None => false,
    };
    in_last || str_ends_with(file, norm.as_str())
}

/// Whether a stored file path falls under one of the paths asked for.
fn paths_match(file: &str, paths: &Vec<String>) -> (r: bool)
    ensures
        r == paths_selected(file@, paths@.map_values(|p: String| p@)),
{
    let ghost ps = paths@.map_values(|p: String| p@);
    if paths.len() == 0 {
        return true;
    }
    let mut i: usize = 0;
    while i < paths.len()
        invariant
            i <= paths@.len(),
            ps == paths@.map_values(|p: String| p@),
            forall|j: int| 0 <= j < i ==> !path_selected(file@, #[trigger] ps[j]),
        decreases paths@.len() - i,
    {
        if path_matches(file, paths[i].as_str()) {
            assert(path_selected(file@, ps[i as int]));
            return true;
        }
        i = i + 1;
    }
    false
}

/// Whether language `l` answers the language asked for.
fn language_matches(l: Language, want_lower: &str) -> (r: bool)
    ensures
        r == (language_name(l) == want_lower@ || if want_lower@ == "rust"@ || want_lower@ == "rs"@ {
            language_name(l) == "rust"@
        } else if want_lower@ == "python"@ || want_lower@ == "py"@ {
            language_name(l) == "python"@
        } else if want_lower@ == "go"@ {
            language_name(l) == "go"@
        } else if want_lower@ == "typescript"@ || want_lower@ == "ts"@ {
            language_name(l) == "typescript"@
        } else if want_lower@ == "javascript"@ || want_lower@ == "js"@ {
            language_name(l) == "javascript"@
        } else {
            has_prefix(language_name(l), want_lower@)
        }),
{
    let name = l.to_string();
    let n = name.as_str();
    let w = want_lower;
    if str_eq(n, w) {
        true
    } else if str_eq(w, "rust") || str_eq(w, "rs") {
        str_eq(n, "rust")
    } else if str_eq(w, "python") || str_eq(w, "py") {
        str_eq(n, "python")
    } else if str_eq(w, "go") {
        str_eq(n, "go")
    } else if str_eq(w, "typescript") || str_eq(w, "ts") {
        str_eq(n, "typescript")
    } else if str_eq(w, "javascript") || str_eq(w, "js") {
        str_eq(n, "javascript")
    } else {
        str_starts_with(n, w)
    }
}

/// The nodes of a symbol search that pass its filters, in order: the entity
/// kind asked for (by name), the language asked for (see
/// [`language_selected`]), and the paths asked for (see [`path_selected`]).
pub fn select_nodes(
    nodes: Vec<Node>,
    kind: Option<&str>,
    lang: Option<&str>,
    paths: &Vec<String>,
) -> (r: Vec<Node>)
    ensures
        node_values(r@) == selected(
            node_values(nodes@),
            opt_view(kind),
            opt_view(lang),
            paths@.map_values(|p: String| p@),
        ),
{
    let ghost ps = paths@.map_values(|p: String| p@);
    let ghost all = node_values(nodes@);
    let want: Option<String> = match lang {
        Some(l) => Some(to_lowercase(l)),
        None => None,
    };
    let mut out: Vec<Node> = Vec::new();
    let mut i: usize = 0;
    while i < nodes.len()
        invariant
            i <= nodes@.len(),
            all == node_values(nodes@),
            ps == paths@.map_values(|p: String| p@),
            match lang {
                Some(l) => want matches Some(w) && w@ == lowercase(l@),
                None => want is None,
            },
            node_values(out@) == selected(
                all.subrange(0, i as int),
                opt_view(kind),
                opt_view(lang),
                ps,
            ),
        decreases nodes@.len() - i,
    {
        let n = &nodes[i];
        let kind_ok = match kind {
            Some(k) => str_eq(n.kind.to_string().as_str(), k),
            None => true,
        };
        let lang_ok = match &want {
            Some(w) => language_matches(n.language, w.as_str()),
            None => true,
        };
        let keep = kind_ok && lang_ok && paths_match(n.file_path.as_str(), paths);
        let ghost t = all.subrange(0, i + 1);
        assert(t.drop_last() =~= all.subrange(0, i as int));
        assert(t.last() == n@);
        if keep {
            proof {
                lemma_node_values_push(out@, *n);
            }
            out.push(n.duplicate());
        }
        i = i + 1;
    }
    assert(all.subrange(0, nodes@.len() as int) =~= all);
    out
}

/// The extension a language asked for by name stands for in a text search:
/// `rust`/`rs`, `python`/`py`, `go`, `typescript`/`ts` and `javascript`/`js`
/// name their extension; anything else is read as an extension itself.
pub open spec fn search_alias(l: Seq<char>) -> Seq<char> {
    if l == "rust"@ || l == "rs"@ {
        "rs"@
    } else if l == "python"@ || l == "py"@ {
        "py"@
    } else if l == "go"@ {
        "go"@
    } else if l == "typescript"@ || l == "ts"@ {
        "ts"@
    } else if l == "javascript"@ || l == "js"@ {
        "js"@
    } else {
        l
    }
}

/// The language a text search falling back from a symbol search keeps.
pub fn search_language(l: &str) -> (r: Language)
    ensures
        r == language_of_key(lowercase(search_alias(l@))),
        r == extension_language(search_alias(l@)),
{
    if str_eq(l, "rust") || str_eq(l, "rs") {
        Language::from_extension("rs")
    } else if str_eq(l, "python") || str_eq(l, "py") {
        Language::from_extension("py")
    } else if str_eq(l, "go") {
        Language::from_extension("go")
    } else if str_eq(l, "typescript") || str_eq(l, "ts") {
        Language::from_extension("ts")
    } else if str_eq(l, "javascript") || str_eq(l, "js") {
        Language::from_extension("js")
    } else {
        Language::from_extension(l)
    }
}

/// The extension a language asked for by name stands for in a regex
/// search: `rust`, `python`, `go`, `typescript`, `javascript`, `java`,
/// `cpp`/`c++` and `c` name their extension; anything else is read as an
/// extension itself.
pub open spec fn rg_alias(l: Seq<char>) -> Seq<char> {
    if l == "rust"@ {
        "rs"@
    } else if l == "python"@ {
        "py"@
    } else if l == "go"@ {
        "go"@
    } else if l == "typescript"@ {
        "ts"@
    } else if l == "javascript"@ {
        "js"@
    } else if l == "java"@ {
        "java"@
    } else if l == "cpp"@ || l == "c++"@ {
        "cpp"@
    } else if l == "c"@ {
        "c"@
    } else {
        l
    }
}

/// The language names a search accepts: a symbol search's text fallback
/// takes `rust`/`rs`, `python`/`py`, `go`, `typescript`/`ts` and
/// `javascript`/`js`; a regex search takes `rust`, `python`, `go`,
/// `typescript`, `javascript`, `java`, `cpp`/`c++` and `c`; anything else
/// is read as a file extension (so `rb` is Ruby for both).
pub proof fn lemma_language_names()
    ensures
        extension_language(search_alias("rust"@)) == Language::Rust,
        extension_language(search_alias("rs"@)) == Language::Rust,
        extension_language(search_alias("python"@)) == Language::Python,
        extension_language(search_alias("py"@)) == Language::Python,
        extension_language(search_alias("go"@)) == Language::Go,
        extension_language(search_alias("typescript"@)) == Language::TypeScript,
        extension_language(search_alias("ts"@)) == Language::TypeScript,
        extension_language(search_alias("javascript"@)) == Language::JavaScript,
        extension_language(search_alias("js"@)) == Language::JavaScript,
        extension_language(search_alias("rb"@)) == Language::Ruby,
        extension_language(rg_alias("rust"@)) == Language::Rust,
        extension_language(rg_alias("python"@)) == Language::Python,
        extension_language(rg_alias("go"@)) == Language::Go,
        extension_language(rg_alias("typescript"@)) == Language::TypeScript,
        extension_language(rg_alias("javascript"@)) == Language::JavaScript,
        extension_language(rg_alias("java"@)) == Language::Java,
        extension_language(rg_alias("cpp"@)) == Language::Cpp,
        extension_language(rg_alias("c++"@)) == Language::Cpp,
        extension_language(rg_alias("c"@)) == Language::C,
        extension_language(rg_alias("rb"@)) == Language::Ruby,
{
    lemma_extension_table();
    reveal_strlit("rust");
    reveal_strlit("rs");
    reveal_strlit("python");
    reveal_strlit("py");
    reveal_strlit("go");
    reveal_strlit("typescript");
    reveal_strlit("ts");
    reveal_strlit("javascript");
    reveal_strlit("js");
    reveal_strlit("java");
    reveal_strlit("cpp");
    reveal_strlit("c++");
    reveal_strlit("c");
    reveal_strlit("rb");
    assert("rust"@ != "rs"@) by { assert("rust"@.len() != "rs"@.len()); }
    assert("rust"@ != "python"@) by { assert("rust"@.len() != "python"@.len()); }
    assert("rust"@ != "py"@) by { assert("rust"@.len() != "py"@.len()); }
    assert("rust"@ != "go"@) by { assert("rust"@.len() != "go"@.len()); }
    assert("rust"@ != "typescript"@) by { assert("rust"@.len() != "typescript"@.len()); }
    assert("rust"@ != "ts"@) by { assert("rust"@.len() != "ts"@.len()); }
    assert("rust"@ != "javascript"@) by { assert("rust"@.len() != "javascript"@.len()); }
    assert("rust"@ != "js"@) by { assert("rust"@.len() != "js"@.len()); }
    assert("rust"@ != "java"@) by { assert("rust"@[0] != "java"@[0]); }
    assert("rust"@ != "cpp"@) by { assert("rust"@.len() != "cpp"@.len()); }
    assert("rust"@ != "c++"@) by { assert("rust"@.len() != "c++"@.len()); }
    assert("rust"@ != "c"@) by { assert("rust"@.len() != "c"@.len()); }
    assert("rust"@ != "rb"@) by { assert("rust"@.len() != "rb"@.len()); }
    assert("rs"@ != "python"@) by { assert("rs"@.len() != "python"@.len()); }
    assert("rs"@ != "py"@) by { assert("rs"@[0] != "py"@[0]); }
    assert("rs"@ != "go"@) by { assert("rs"@[0] != "go"@[0]); }
    assert("rs"@ != "typescript"@) by { assert("rs"@.len() != "typescript"@.len()); }
    assert("rs"@ != "ts"@) by { assert("rs"@[0] != "ts"@[0]); }
    assert("rs"@ != "javascript"@) by { assert("rs"@.len() != "javascript"@.len()); }
    assert("rs"@ != "js"@) by { assert("rs"@[0] != "js"@[0]); }
    assert("rs"@ != "java"@) by { assert("rs"@.len() != "java"@.len()); }
    assert("rs"@ != "cpp"@) by { assert("rs"@.len() != "cpp"@.len()); }
    assert("rs"@ != "c++"@) by { assert("rs"@.len() != "c++"@.len()); }
    assert("rs"@ != "c"@) by { assert("rs"@.len() != "c"@.len()); }
    assert("rs"@ != "rb"@) by { assert("rs"@[1] != "rb"@[1]); }
    assert("python"@ != "py"@) by { assert("python"@.len() != "py"@.len()); }
    assert("python"@ != "go"@) by { assert("python"@.len() != "go"@.len()); }
    assert("python"@ != "typescript"@) by { assert("python"@.len() != "typescript"@.len()); }
    assert("python"@ != "ts"@) by { assert("python"@.len() != "ts"@.len()); }
    assert("python"@ != "javascript"@) by { assert("python"@.len() != "javascript"@.len()); }
    assert("python"@ != "js"@) by { assert("python"@.len() != "js"@.len()); }
    assert("python"@ != "java"@) by { assert("python"@.len() != "java"@.len()); }
    assert("python"@ != "cpp"@) by { assert("python"@.len() != "cpp"@.len()); }
    assert("python"@ != "c++"@) by { assert("python"@.len() != "c++"@.len()); }
    assert("python"@ != "c"@) by { assert("python"@.len() != "c"@.len()); }
    assert("python"@ != "rb"@) by { assert("python"@.len() != "rb"@.len()); }
    assert("py"@ != "go"@) by { assert("py"@[0] != "go"@[0]); }
    assert("py"@ != "typescript"@) by { assert("py"@.len() != "typescript"@.len()); }
    assert("py"@ != "ts"@) by { assert("py"@[0] != "ts"@[0]); }
    assert("py"@ != "javascript"@) by { assert("py"@.len() != "javascript"@.len()); }
    assert("py"@ != "js"@) by { assert("py"@[0] != "js"@[0]); }
    assert("py"@ != "java"@) by { assert("py"@.len() != "java"@.len()); }
    assert("py"@ != "cpp"@) by { assert("py"@.len() != "cpp"@.len()); }
    assert("py"@ != "c++"@) by { assert("py"@.len() != "c++"@.len()); }
    assert("py"@ != "c"@) by { assert("py"@.len() != "c"@.len()); }
    assert("py"@ != "rb"@) by { assert("py"@[0] != "rb"@[0]); }
    assert("go"@ != "typescript"@) by { assert("go"@.len() != "typescript"@.len()); }
    assert("go"@ != "ts"@) by { assert("go"@[0] != "ts"@[0]); }
    assert("go"@ != "javascript"@) by { assert("go"@.len() != "javascript"@.len()); }
    assert("go"@ != "js"@) by { assert("go"@[0] != "js"@[0]); }
    assert("go"@ != "java"@) by { assert("go"@.len() != "java"@.len()); }
    assert("go"@ != "cpp"@) by { assert("go"@.len() != "cpp"@.len()); }
    assert("go"@ != "c++"@) by { assert("go"@.len() != "c++"@.len()); }
    assert("go"@ != "c"@) by { assert("go"@.len() != "c"@.len()); }
    assert("go"@ != "rb"@) by { assert("go"@[0] != "rb"@[0]); }
    assert("typescript"@ != "ts"@) by { assert("typescript"@.len() != "ts"@.len()); }
    assert("typescript"@ != "javascript"@) by { assert("typescript"@[0] != "javascript"@[0]); }
    assert("typescript"@ != "js"@) by { assert("typescript"@.len() != "js"@.len()); }
    assert("typescript"@ != "java"@) by { assert("typescript"@.len() != "java"@.len()); }
    assert("typescript"@ != "cpp"@) by { assert("typescript"@.len() != "cpp"@.len()); }
    assert("typescript"@ != "c++"@) by { assert("typescript"@.len() != "c++"@.len()); }
    assert("typescript"@ != "c"@) by { assert("typescript"@.len() != "c"@.len()); }
    assert("typescript"@ != "rb"@) by { assert("typescript"@.len() != "rb"@.len()); }
    assert("ts"@ != "javascript"@) by { assert("ts"@.len() != "javascript"@.len()); }
    assert("ts"@ != "js"@) by { assert("ts"@[0] != "js"@[0]); }
    assert("ts"@ != "java"@) by { assert("ts"@.len() != "java"@.len()); }
    assert("ts"@ != "cpp"@) by { assert("ts"@.len() != "cpp"@.len()); }
    assert("ts"@ != "c++"@) by { assert("ts"@.len() != "c++"@.len()); }
    assert("ts"@ != "c"@) by { assert("ts"@.len() != "c"@.len()); }
    assert("ts"@ != "rb"@) by { assert("ts"@[0] != "rb"@[0]); }
    assert("javascript"@ != "js"@) by { assert("javascript"@.len() != "js"@.len()); }
    assert("javascript"@ != "java"@) by { assert("javascript"@.len() != "java"@.len()); }
    assert("javascript"@ != "cpp"@) by { assert("javascript"@.len() != "cpp"@.len()); }
    assert("javascript"@ != "c++"@) by { assert("javascript"@.len() != "c++"@.len()); }
    assert("javascript"@ != "c"@) by { assert("javascript"@.len() != "c"@.len()); }
    assert("javascript"@ != "rb"@) by { assert("javascript"@.len() != "rb"@.len()); }
    assert("js"@ != "java"@) by { assert("js"@.len() != "java"@.len()); }
    assert("js"@ != "cpp"@) by { assert("js"@.len() != "cpp"@.len()); }
    assert("js"@ != "c++"@) by { assert("js"@.len() != "c++"@.len()); }
    assert("js"@ != "c"@) by { assert("js"@.len() != "c"@.len()); }
    assert("js"@ != "rb"@) by { assert("js"@[0] != "rb"@[0]); }
    assert("java"@ != "cpp"@) by { assert("java"@.len() != "cpp"@.len()); }
    assert("java"@ != "c++"@) by { assert("java"@.len() != "c++"@.len()); }
    assert("java"@ != "c"@) by { assert("java"@.len() != "c"@.len()); }
    assert("java"@ != "rb"@) by { assert("java"@.len() != "rb"@.len()); }
    assert("cpp"@ != "c++"@) by { assert("cpp"@[1] != "c++"@[1]); }
    assert("cpp"@ != "c"@) by { assert("cpp"@.len() != "c"@.len()); }
    assert("cpp"@ != "rb"@) by { assert("cpp"@.len() != "rb"@.len()); }
    assert("c++"@ != "c"@) by { assert("c++"@.len() != "c"@.len()); }
    assert("c++"@ != "rb"@) by { assert("c++"@.len() != "rb"@.len()); }
    assert("c"@ != "rb"@) by { assert("c"@.len() != "rb"@.len()); }
}

/// The language a regex search keeps when asked for language `l`.
pub fn rg_language(l: &str) -> (r: Language)
    ensures
        r == language_of_key(lowercase(rg_alias(l@))),
        r == extension_language(rg_alias(l@)),
{
    if str_eq(l, "rust") {
        Language::from_extension("rs")
    } else if str_eq(l, "python") {
        Language::from_extension("py")
    } else if str_eq(l, "go") {
        Language::from_extension("go")
    } else if str_eq(l, "typescript") {
        Language::from_extension("ts")
    } else if str_eq(l, "javascript") {
        Language::from_extension("js")
    } else if str_eq(l, "java") {
        Language::from_extension("java")
    } else if str_eq(l, "cpp") || str_eq(l, "c++") {
        Language::from_extension("cpp")
    } else if str_eq(l, "c") {
        Language::from_extension("c")
    } else {
        Language::from_extension(l)
    }
}

/// Scoping by several paths is the union of scoping by each: with no paths
/// every file is in scope; a file is in scope of a list exactly when it is
/// in scope of one of its paths alone, so adding paths never drops a file;
/// and a file lies under a directory it starts with.
pub proof fn lemma_scope_is_union(file: Seq<char>, paths: Seq<Seq<char>>, p: Seq<char>)
    ensures
        paths_selected(file, seq![]),
        paths.len() > 0 ==> (paths_selected(file, paths) <==> exists|i: int|
            0 <= i < paths.len() && paths_selected(file, seq![#[trigger] paths[i]])),
        paths_selected(file, seq![p]) && paths.contains(p) ==> paths_selected(file, paths),
        paths_selected(file, seq![p]) ==> paths_selected(file, paths.push(p)),
        has_prefix(file, p) && (p.len() == 0 || p.last() != '/') ==> paths_selected(file, seq![p]),
{
    if paths.len() > 0 {
        if paths_selected(file, paths) {
            let i = choose|i: int| 0 <= i < paths.len() && path_selected(file, #[trigger] paths[i]);
            assert(seq![paths[i]][0] == paths[i]);
        }
        if exists|i: int| 0 <= i < paths.len() && paths_selected(file, seq![#[trigger] paths[i]]) {
            let i = choose|i: int| 0 <= i < paths.len() && paths_selected(file, seq![#[trigger] paths[i]]);
            assert(seq![paths[i]][0] == paths[i]);
            assert(path_selected(file, paths[i]));
        }
    }
    if paths_selected(file, seq![p]) {
        assert(seq![p][0] == p);
        assert(path_selected(file, p));
        if paths.contains(p) {
            let i = choose|i: int| 0 <= i < paths.len() && paths[i] == p;
            assert(path_selected(file, paths[i]));
        }
        assert(paths.push(p)[paths.len() as int] == p);
    }
    if has_prefix(file, p) && (p.len() == 0 || p.last() != '/') {
        assert(without_trailing_slashes(p) == p);
        assert(seq![p][0] == p);
    }
}

/// Adding a scope path never drops a node from a symbol search: a node
/// selected when scoped to path `p` alone is selected under any list of
/// paths holding `p`, with the same kind and language filters.
pub proof fn lemma_scope_monotone(n: NodeValue, kind: Option<Seq<char>>, lang: Option<Seq<char>>, paths: Seq<Seq<char>>, p: Seq<char>)
    ensures
        node_selected(n, kind, lang, seq![p]) && paths.contains(p) ==> node_selected(n, kind, lang, paths),
        node_selected(n, kind, lang, seq![]) <==> (kind_selected(n, kind) && match lang {
            Some(l) => language_selected(n.language, l),
            None => true,
        }),
{
    lemma_scope_is_union(n.file_path, paths, p);
}

/// A symbol search keeps only nodes that pass its filters, keeps each at
/// most once in the order found, and keeps every node that passes.
pub proof fn lemma_selected_exactly(
    s: Seq<NodeValue>,
    kind: Option<Seq<char>>,
    lang: Option<Seq<char>>,
    paths: Seq<Seq<char>>,
)
    ensures
        selected(s, kind, lang, paths).len() <= s.len(),
        forall|i: int|
            0 <= i < selected(s, kind, lang, paths).len() ==> node_selected(
                #[trigger] selected(s, kind, lang, paths)[i],
                kind,
                lang,
                paths,
            ),
        forall|i: int|
            0 <= i < s.len() && node_selected(#[trigger] s[i], kind, lang, paths) ==> selected(
                s,
                kind,
                lang,
                paths,
            ).contains(s[i]),
    decreases s.len(),
{
    if s.len() > 0 {
        let p = s.drop_last();
        lemma_selected_exactly(p, kind, lang, paths);
        let sp = selected(p, kind, lang, paths);
        let ss = selected(s, kind, lang, paths);
        assert forall|i: int| 0 <= i < ss.len() implies node_selected(#[trigger] ss[i], kind, lang, paths) by {
            if i < sp.len() {
                assert(ss[i] == sp[i]);
            }
        }
        assert forall|i: int|
            0 <= i < s.len() && node_selected(#[trigger] s[i], kind, lang, paths) implies ss.contains(s[i]) by {
            if i < p.len() {
                assert(s[i] == p[i]);
                let j = choose|j: int| 0 <= j < sp.len() && sp[j] == p[i];
                assert(ss[j] == sp[j]);
            } else {
                assert(ss[ss.len() - 1] == s[i]);
            }
        }
    }
}

} // verus!
