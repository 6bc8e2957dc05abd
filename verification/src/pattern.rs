//! Structural search with ast-grep patterns such as `$X.unwrap()` or
//! `fn $NAME() { $$$ }`: `$NAME` stands for one node and `$$$` for any
//! number of nodes. Each match reports its text and the lines it spans.
use vstd::prelude::*;
use vstd::utf8::encode_utf8;
use crate::extract::{parse_error, parse_error_of};
use crate::model::{DeagleError, Language};
use crate::text::{byte_slice, concat, contains_char, has_char, is_white_space, lemma_words_are_words, owned, split_words, str_eq, trim, trim_end_spec, trim_spec, trim_start_spec, words};

verus! {

broadcast use vstd::string::group_string_axioms;

/// A pattern match with its location.
#[derive(Debug, Clone)]
pub struct PatternMatch {
    /// Matched source text
    pub text: String,
    /// File path
    pub file_path: String,
    /// Start line (1-indexed)
    pub line_start: u32,
    /// End line (1-indexed)
    pub line_end: u32,
    /// Start column (0-indexed)
    pub col_start: u32,
}

/// A pattern match as the specifications see it.
pub ghost struct MatchView {
    pub text: Seq<char>,
    pub file_path: Seq<char>,
    pub line_start: u32,
    pub line_end: u32,
    pub col_start: u32,
}

impl View for PatternMatch {
    type V = MatchView;

    open spec fn view(&self) -> MatchView {
        MatchView {
            text: self.text@,
            file_path: self.file_path@,
            line_start: self.line_start,
            line_end: self.line_end,
            col_start: self.col_start,
        }
    }
}

/// One node the pattern matched: its text and its byte range.
pub struct Hit {
    pub text: String,
    pub start: usize,
    pub end: usize,
}

/// A matched node as the specifications see it.
pub ghost struct HitView {
    pub text: Seq<char>,
    pub start: usize,
    pub end: usize,
}

impl View for Hit {
    type V = HitView;

    open spec fn view(&self) -> HitView {
        HitView { text: self.text@, start: self.start, end: self.end }
    }
}

/// Whether ast-grep accepts `pattern` as a Rust pattern
/// (`ast_grep_core::Pattern::try_new` succeeds).
pub uninterp spec fn rust_pattern_ok(pattern: Seq<char>) -> bool;

/// The nodes of Rust source `content` that `pattern` matches, in the order
/// ast-grep's `find_all` walks them; `None` when the source gives no tree.
pub uninterp spec fn rust_pattern_hits(content: Seq<char>, pattern: Seq<char>) -> Option<
    Seq<HitView>,
>;

/// Compiles `pattern` for Rust with `ast_grep_core::Pattern::try_new` and
/// reports whether that succeeded. The contract names the answer.
#[verifier::external_body]
fn rust_pattern_compiles(pattern: &str) -> (ok: bool)
    ensures
        ok == rust_pattern_ok(pattern@),
{
    ast_grep_core::Pattern::try_new(pattern, ast_grep_language::SupportLang::Rust).is_ok()
}

/// Parses `content` as Rust (`ast_grep_core::AstGrep::try_new`) and lists
/// every node `pattern` matches (`Node::find_all` from the root), each with
/// its text and byte range. The contract names the result, and states that
/// each hit's text is the source between the bytes of its range (`Node::text`
/// is the node's `utf8_text` over the source, which a range out of order or
/// off a character boundary would not give).
#[verifier::external_body]
fn rust_pattern_find(content: &str, pattern: &str) -> (r: Option<Vec<Hit>>)
    requires
        rust_pattern_ok(pattern@),
    ensures
        match r {
            Some(v) => rust_pattern_hits(content@, pattern@) == Some(v@.map_values(|h: Hit| h@)),
            None => rust_pattern_hits(content@, pattern@) is None,
        },
        r matches Some(v) ==> forall|k: int|
            0 <= k < v@.len() ==> byte_slice(content@, #[trigger] v@[k].start, v@[k].end) == Some(
                v@[k].text@,
            ),
{
    let lang = ast_grep_language::SupportLang::Rust;
    let pattern = ast_grep_core::Pattern::new(pattern, lang);
    let grep = ast_grep_core::AstGrep::try_new(content, lang).ok()?;
    let root = grep.root();
    let hits = root.find_all(&pattern).map(|m| {
        let range = m.range();
        Hit { text: m.text().to_string(), start: range.start, end: range.end }
    });
    Some(hits.collect())
}

/// Number of newline bytes among the first `n` bytes of `b`.
pub open spec fn newlines_in(b: Seq<u8>, n: int) -> nat
    decreases n,
{
    if n <= 0 {
        0
    } else {
        newlines_in(b, n - 1) + if n - 1 < b.len() && b[n - 1] == 10u8 {
            1nat
        } else {
            0nat
        }
    }
}

/// One-based line, in `content`, of the byte at offset `byte` (wrapping to
/// `u32`): one more than the newlines before it.
pub open spec fn line_at(content: Seq<char>, byte: usize) -> u32 {
    ((1 + newlines_in(encode_utf8(content), byte as int)) as u32)
}

/// Offset of the first byte of the line holding the byte at offset `n` of
/// `b`: just past the last newline before it, or 0.
pub open spec fn line_begin(b: Seq<u8>, n: int) -> int
    decreases n,
{
    if n <= 0 {
        0
    } else if n - 1 < b.len() && b[n - 1] == 10u8 {
        n
    } else {
        line_begin(b, n - 1)
    }
}

/// Zero-based column, in bytes, of the byte at offset `byte` of `content`
/// (wrapping to `u32`): its distance from the start of its line.
pub open spec fn column_at(content: Seq<char>, byte: usize) -> u32 {
    ((byte - line_begin(encode_utf8(content), byte as int)) as u32)
}

/// The match a hit makes in the file at `path`.
pub open spec fn match_of(h: HitView, path: Seq<char>, content: Seq<char>) -> MatchView {
    MatchView {
        text: h.text,
        file_path: path,
        line_start: line_at(content, h.start),
        line_end: line_at(content, h.end),
        col_start: column_at(content, h.start),
    }
}

/// The matches of hits `hs` in the file at `path`.
pub open spec fn matches_of(hs: Seq<HitView>, path: Seq<char>, content: Seq<char>) -> Seq<
    MatchView,
> {
    hs.map_values(|h: HitView| match_of(h, path, content))
}

/// What searching for `pattern` in `content` gives: the Rust matches, none
/// at all for other languages, `None` when a Rust source gives no tree.
pub open spec fn pattern_search(
    path: Seq<char>,
    content: Seq<char>,
    pattern: Seq<char>,
    language: Language,
) -> Option<Seq<MatchView>> {
    if language == Language::Rust {
        match rust_pattern_hits(content, pattern) {
            Some(hs) => Some(matches_of(hs, path, content)),
            None => None,
        }
    } else {
        Some(seq![])
    }
}

proof fn lemma_newlines_monotone(b: Seq<u8>, x: int, y: int)
    requires
        x <= y,
    ensures
        newlines_in(b, x) <= newlines_in(b, y),
    decreases y - x,
{
    if x < y {
        lemma_newlines_monotone(b, x, y - 1);
    }
}

proof fn lemma_newlines_saturate(b: Seq<u8>, n: int)
    requires
        n >= b.len(),
    ensures
        newlines_in(b, n) == newlines_in(b, b.len() as int),
    decreases n,
{
    if n > b.len() {
        lemma_newlines_saturate(b, n - 1);
    }
}

/// The offsets at which lines begin: 0, then one past every newline.
pub open spec fn lists_line_starts(b: Seq<u8>, ls: Seq<usize>) -> bool {
    &&& ls.len() >= 1
    &&& ls[0] == 0
    &&& forall|k: int| 1 <= k < ls.len() ==> 1 <= #[trigger] ls[k] <= b.len() && b[ls[k] - 1]
        == 10u8 && newlines_in(b, ls[k] as int) == k
    &&& forall|k: int, j: int| 0 <= k < j < ls.len() ==> ls[k] < ls[j]
    &&& newlines_in(b, b.len() as int) == ls.len() - 1
}

/// Offsets at which the lines of `b` begin.
fn line_starts(b: &[u8]) -> (ls: Vec<usize>)
    ensures
        lists_line_starts(b@, ls@),
{
    let mut ls: Vec<usize> = Vec::new();
    ls.push(0);
    let mut i: usize = 0;
    while i < b.len()
        invariant
            i <= b@.len(),
            ls@.len() >= 1,
            ls@[0] == 0,
            forall|k: int| 1 <= k < ls@.len() ==> 1 <= #[trigger] ls@[k] <= i && b@[ls@[k] - 1]
                == 10u8 && newlines_in(b@, ls@[k] as int) == k,
            forall|k: int, j: int| 0 <= k < j < ls@.len() ==> ls@[k] < ls@[j],
            newlines_in(b@, i as int) == ls@.len() - 1,
            forall|k: int| 0 <= k < ls@.len() ==> #[trigger] ls@[k] <= i,
        decreases b@.len() - i,
    {
        if b[i] == 10u8 {
            ls.push(i + 1);
        }
        i = i + 1;
    }
    ls
}

proof fn lemma_no_newline_between(b: Seq<u8>, x: int, y: int)
    requires
        0 <= x <= y,
        newlines_in(b, x) == newlines_in(b, y),
    ensures
        forall|n: int| x < n <= y ==> !(n - 1 < b.len() && #[trigger] b[n - 1] == 10u8),
{
    assert forall|n: int| x < n <= y implies !(n - 1 < b.len() && #[trigger] b[n - 1] == 10u8) by {
        if n - 1 < b.len() && b[n - 1] == 10u8 {
            lemma_newlines_monotone(b, x, n - 1);
            lemma_newlines_monotone(b, n, y);
            assert(newlines_in(b, n) == newlines_in(b, n - 1) + 1);
        }
    }
}

proof fn lemma_line_begin_skip(b: Seq<u8>, x: int, y: int)
    requires
        0 <= x <= y,
        forall|n: int| x < n <= y ==> !(n - 1 < b.len() && #[trigger] b[n - 1] == 10u8),
    ensures
        line_begin(b, y) == line_begin(b, x),
    decreases y - x,
{
    if x < y {
        assert(!(y - 1 < b.len() && b[y - 1] == 10u8));
        lemma_line_begin_skip(b, x, y - 1);
    }
}

/// The line of the byte at `byte` (how many line starts lie at or before
/// it) and its column (its distance from the last of them).
fn position_of(b: &[u8], ls: &Vec<usize>, byte: usize) -> (pos: (u32, u32))
    requires
        lists_line_starts(b@, ls@),
    ensures
        pos.0 == ((1 + newlines_in(b@, byte as int)) as u32),
        pos.1 == ((byte - line_begin(b@, byte as int)) as u32),
{
    let mut lo: usize = 0;
    let mut hi: usize = ls.len();
    while lo < hi
        invariant
            lists_line_starts(b@, ls@),
            0 <= lo <= hi <= ls@.len(),
            forall|k: int| 0 <= k < lo ==> #[trigger] ls@[k] <= byte,
            forall|k: int| hi <= k < ls@.len() ==> #[trigger] ls@[k] > byte,
        decreases hi - lo,
    {
        let mid = lo + (hi - lo) / 2;
        if ls[mid] <= byte {
            lo = mid + 1;
        } else {
            hi = mid;
        }
    }
    proof {
        assert(ls@[0] <= byte);
        let p = lo as int;
        let last = ls@[p - 1] as int;
        assert(newlines_in(b@, last) == p - 1);
        lemma_newlines_monotone(b@, last, byte as int);
        if p < ls@.len() {
            let next = ls@[p] as int;
            assert(newlines_in(b@, next) == newlines_in(b@, next - 1) + 1);
            lemma_newlines_monotone(b@, byte as int, next - 1);
        } else {
            if byte as int <= b@.len() {
                lemma_newlines_monotone(b@, byte as int, b@.len() as int);
            } else {
                lemma_newlines_saturate(b@, byte as int);
            }
        }
        assert(newlines_in(b@, byte as int) == p - 1);
        lemma_no_newline_between(b@, last, byte as int);
        lemma_line_begin_skip(b@, last, byte as int);
        if p - 1 >= 1 {
            assert(1 <= ls@[p - 1] <= b@.len() && b@[ls@[p - 1] - 1] == 10u8);
        }
        assert(line_begin(b@, last) == last);
    }
    let begin = ls[lo - 1];
    let line = #[verifier::truncate] (lo as u32);
    let col = #[verifier::truncate] ((byte - begin) as u32);
    (line, col)
}

/// The matches of `pattern` in the Rust source `content`, or `None` when the
/// source gives no tree.
fn search_rust(path: &str, content: &str, pattern: &str) -> (r: Option<Vec<PatternMatch>>)
    requires
        rust_pattern_ok(pattern@),
    ensures
        match rust_pattern_hits(content@, pattern@) {
            Some(hs) => r matches Some(v) && v@.map_values(|m: PatternMatch| m@) == matches_of(
                hs,
                path@,
                content@,
            ),
            None => r is None,
        },
        rust_pattern_hits(content@, pattern@) matches Some(hs) ==> forall|k: int|
            0 <= k < hs.len() ==> byte_slice(content@, #[trigger] hs[k].start, hs[k].end) == Some(
                hs[k].text,
            ),
{
    let hits = match rust_pattern_find(content, pattern) {
        Some(h) => h,
        None => return None,
    };
    let ghost hs = hits@.map_values(|h: Hit| h@);
    assert forall|k: int| 0 <= k < hs.len() implies byte_slice(content@, #[trigger] hs[k].start, hs[k].end) == Some(hs[k].text) by {
        assert(hs[k] == hits@[k]@);
    }
    let bytes = content.as_bytes();
    let ls = line_starts(bytes);
    let mut out: Vec<PatternMatch> = Vec::new();
    let mut i: usize = 0;
    while i < hits.len()
        invariant
            i <= hits@.len(),
            hs == hits@.map_values(|h: Hit| h@),
            bytes@ == encode_utf8(content@),
            lists_line_starts(bytes@, ls@),
            out@.len() == i,
            forall|k: int| 0 <= k < i ==> (#[trigger] out@[k])@ == match_of(hs[k], path@, content@),
        decreases hits@.len() - i,
    {
        let h = &hits[i];
        let (line_start, col_start) = position_of(bytes, &ls, h.start);
        let (line_end, _) = position_of(bytes, &ls, h.end);
        let m = PatternMatch {
            text: h.text.clone(),
            file_path: owned(path),
            line_start,
            line_end,
            col_start,
        };
        out.push(m);
        i = i + 1;
    }
    assert(out@.map_values(|m: PatternMatch| m@) =~= matches_of(hs, path@, content@));
    Some(out)
}

/// Searches a file for a structural pattern. Only Rust sources are searched;
/// any other language gives no matches. Fails when a Rust source gives no
/// syntax tree. A Rust pattern must be one ast-grep accepts. Each match's
/// text is the source between the bytes of its node's range, and its lines
/// and start column are those of that range's ends.
pub fn search_pattern(path: &str, content: &str, pattern: &str, language: Language) -> (r: Result<
    Vec<PatternMatch>,
    DeagleError,
>)
    requires
        language == Language::Rust ==> rust_pattern_ok(pattern@),
    ensures
        match pattern_search(path@, content@, pattern@, language) {
            Some(ms) => r matches Ok(v) && v@.map_values(|m: PatternMatch| m@) == ms,
            None => r matches Err(e) && parse_error_of(e, path@, "Failed to parse file"@),
        },
        language == Language::Rust ==> (rust_pattern_hits(content@, pattern@) matches Some(hs) ==> forall|k: int|
            0 <= k < hs.len() ==> byte_slice(content@, #[trigger] hs[k].start, hs[k].end) == Some(
                hs[k].text,
            )),
{
    if language == Language::Rust {
        match search_rust(path, content, pattern) {
            Some(v) => Ok(v),
            None => Err(parse_error(path, owned("Failed to parse file"))),
        }
    } else {
        let v: Vec<PatternMatch> = Vec::new();
        assert(v@.map_values(|m: PatternMatch| m@) =~= Seq::<MatchView>::empty());
        Ok(v)
    }
}

/// [`search_pattern`] for any pattern: `None` when the file is Rust and
/// ast-grep does not accept the pattern, the search's outcome otherwise.
pub fn try_search_pattern(path: &str, content: &str, pattern: &str, language: Language) -> (r:
    Option<Result<Vec<PatternMatch>, DeagleError>>)
    ensures
        language == Language::Rust && !rust_pattern_ok(pattern@) ==> r is None,
        !(language == Language::Rust && !rust_pattern_ok(pattern@)) ==> match pattern_search(
            path@,
            content@,
            pattern@,
            language,
        ) {
            Some(ms) => r matches Some(Ok(v)) && v@.map_values(|m: PatternMatch| m@) == ms,
            None => r matches Some(Err(e)) && parse_error_of(e, path@, "Failed to parse file"@),
        },
{
    if language == Language::Rust && !rust_pattern_compiles(pattern) {
        None
    } else {
        Some(search_pattern(path, content, pattern, language))
    }
}

/// The completed form of an incomplete declaration pattern: `pub enum Foo`
/// becomes `pub enum Foo { $$$ }` (likewise after `struct` and `trait`),
/// `fn foo` becomes `fn foo($$$) { $$$ }`, and `impl ...` gets a body; a
/// pattern with a brace or a parenthesis needs no completion.
pub open spec fn completion(pattern: Seq<char>) -> Option<Seq<char>> {
    let t = trim_spec(pattern);
    let ws = words(t);
    let n = ws.len();
    if has_char(t, '{') || has_char(t, '(') {
        None
    } else if n >= 2 && (ws[n - 2] == "enum"@ || ws[n - 2] == "struct"@ || ws[n - 2] == "trait"@) {
        Some(t + " { $$$ }"@)
    } else if n >= 2 && ws[n - 2] == "fn"@ {
        Some(t + "($$$) { $$$ }"@)
    } else if n >= 1 && ws[0] == "impl"@ {
        Some(t + " { $$$ }"@)
    } else {
        None
    }
}

/// Suggests the completed ast-grep pattern for an incomplete declaration
/// (see [`completion`]).
pub fn suggest_pattern_completion(pattern: &str) -> (r: Option<String>)
    ensures
        match completion(pattern@) {
            Some(c) => r matches Some(s) && s@ == c,
            None => r is None,
        },
{
    let trimmed = trim(pattern);
    let t = trimmed.as_str();
    if contains_char(t, '{') || contains_char(t, '(') {
        return None;
    }
    let ws = split_words(t);
    let n = ws.len();
    if n >= 2 && (str_eq(ws[n - 2].as_str(), "enum") || str_eq(ws[n - 2].as_str(), "struct")
        || str_eq(ws[n - 2].as_str(), "trait")) {
        Some(concat(t, " { $$$ }"))
    } else if n >= 2 && str_eq(ws[n - 2].as_str(), "fn") {
        Some(concat(t, "($$$) { $$$ }"))
    } else if n >= 1 && str_eq(ws[0].as_str(), "impl") {
        Some(concat(t, " { $$$ }"))
    } else {
        None
    }
}

proof fn lemma_trim_start_begins(s: Seq<char>)
    ensures
        trim_start_spec(s).len() > 0 ==> !is_white_space(trim_start_spec(s)[0]),
    decreases s.len(),
{
    if s.len() > 0 && is_white_space(s[0]) {
        lemma_trim_start_begins(s.drop_first());
    }
}

proof fn lemma_no_words_when_empty(s: Seq<char>)
    requires
        s.len() == 0,
    ensures
        words(s).len() == 0,
{
}

/// A completed pattern needs no further completion.
pub proof fn lemma_completion_final(pattern: Seq<char>)
    ensures
        completion(pattern) matches Some(c) ==> completion(c) is None,
{
    if let Some(c) = completion(pattern) {
        let t = trim_spec(pattern);
        reveal_strlit(" { $$$ }");
        reveal_strlit("($$$) { $$$ }");
        let suffix = if c == t + " { $$$ }"@ {
            " { $$$ }"@
        } else {
            "($$$) { $$$ }"@
        };
        assert(c == t + suffix);
        assert(words(t).len() > 0);
        if t.len() == 0 {
            lemma_no_words_when_empty(t);
        }
        assert(t.len() > 0);
        lemma_trim_start_begins(trim_end_spec(pattern));
        assert(!is_white_space(c[0])) by {
            assert(c[0] == t[0]);
        }
        assert(c.last() == '}');
        assert(trim_end_spec(c) == c);
        assert(trim_start_spec(c) == c);
        assert(trim_spec(c) == c);
        let k: int = if suffix == " { $$$ }"@ {
            t.len() + 1int
        } else {
            t.len() + 6int
        };
        assert(c[k] == '{');
        assert(has_char(trim_spec(c), '{'));
    }
}

/// Lines count from 1 and never go back: a later byte lies on the same line
/// or a later one (while the line numbers fit in `u32`).
pub proof fn lemma_lines_ordered(content: Seq<char>, a: usize, b: usize)
    requires
        a <= b,
        newlines_in(encode_utf8(content), b as int) < u32::MAX,
    ensures
        1 <= line_at(content, a) <= line_at(content, b),
{
    lemma_newlines_monotone(encode_utf8(content), a as int, b as int);
}

/// Every Rust match is located by its node's byte range: for a hit whose
/// text is the source between its two byte offsets (as `search_pattern`
/// states of each hit), the match reports the file's path and that text,
/// its lines are the lines of the two ends, and the first is at least 1 and
/// at most the last (while the line count fits a `u32`).
pub proof fn lemma_match_located(path: Seq<char>, content: Seq<char>, h: HitView)
    requires
        byte_slice(content, h.start, h.end) == Some(h.text),
        newlines_in(encode_utf8(content), h.end as int) < u32::MAX,
    ensures
        ({
            let m = match_of(h, path, content);
            &&& m.file_path == path
            &&& byte_slice(content, h.start, h.end) == Some(m.text)
            &&& m.line_start == line_at(content, h.start)
            &&& m.line_end == line_at(content, h.end)
            &&& 1 <= m.line_start <= m.line_end
        }),
{
    lemma_lines_ordered(content, h.start, h.end);
}

/// How far a structural search of a directory has gone.
#[derive(Debug, Clone, Copy, PartialEq, Eq, Structural)]
pub enum SgStage {
    /// Nothing searched yet.
    Start,
    /// The pattern as given was searched for.
    Searched,
    /// The completed form of the pattern was searched for.
    SearchedCompleted,
    /// Nothing more to do.
    Finished,
}

/// What a structural search of a directory does next.
#[derive(Debug)]
pub enum SgAction {
    /// Walk the directory for this pattern and count its matches.
    Search(String),
    /// Fall back to a plain text search for the pattern as given.
    TextFallback,
    /// Stop.
    Done,
}

/// The next stage and action of a directory search for `pattern`, given
/// its stage and the number of matches the last walk found: the pattern as
/// given first; with no match, its completed form (see [`completion`]) if
/// it has one; with still no match, a text search.
pub open spec fn sg_next(stage: SgStage, pattern: Seq<char>, found: usize) -> (SgStage, Option<
    Option<Seq<char>>,
>) {
    match stage {
        SgStage::Start => (SgStage::Searched, Some(Some(pattern))),
        SgStage::Searched => if found > 0 {
            (SgStage::Finished, None)
        } else {
            match completion(pattern) {
                Some(c) => (SgStage::SearchedCompleted, Some(Some(c))),
                None => (SgStage::Finished, Some(None)),
            }
        },
        SgStage::SearchedCompleted => if found > 0 {
            (SgStage::Finished, None)
        } else {
            (SgStage::Finished, Some(None))
        },
        SgStage::Finished => (SgStage::Finished, None),
    }
}

/// The meaning of an action: `Some(Some(p))` searches for `p`,
/// `Some(None)` falls back to text search, `None` stops.
pub open spec fn action_meaning(a: SgAction) -> Option<Option<Seq<char>>> {
    match a {
        SgAction::Search(p) => Some(Some(p@)),
        SgAction::TextFallback => Some(None),
        SgAction::Done => None,
    }
}

/// Decides the next step of a directory search for `pattern` (see
/// [`sg_next`]).
pub fn sg_step(stage: SgStage, pattern: &str, found: usize) -> (r: (SgStage, SgAction))
    ensures
        r.0 == sg_next(stage, pattern@, found).0,
        action_meaning(r.1) == sg_next(stage, pattern@, found).1,
{
    match stage {
        SgStage::Start => (SgStage::Searched, SgAction::Search(owned(pattern))),
        SgStage::Searched => if found > 0 {
            (SgStage::Finished, SgAction::Done)
        } else {
            match suggest_pattern_completion(pattern) {
                Some(c) => (SgStage::SearchedCompleted, SgAction::Search(c)),
                None => (SgStage::Finished, SgAction::TextFallback),
            }
        },
        SgStage::SearchedCompleted => if found > 0 {
            (SgStage::Finished, SgAction::Done)
        } else {
            (SgStage::Finished, SgAction::TextFallback)
        },
        SgStage::Finished => (SgStage::Finished, SgAction::Done),
    }
}

/// A directory search ends: from any stage, at most three steps reach
/// `Finished`, and a finished search does nothing more.
pub proof fn lemma_sg_terminates(pattern: Seq<char>, a: usize, b: usize, c: usize)
    ensures
        sg_next(
            sg_next(sg_next(SgStage::Start, pattern, a).0, pattern, b).0,
            pattern,
            c,
        ).0 == SgStage::Finished,
        sg_next(SgStage::Finished, pattern, a) == (SgStage::Finished, None::<Option<Seq<char>>>),
{
}

} // verus!
