//! Regex text search with ripgrep's library crates: every line of a file
//! that a regular expression matches, with its one-based line number and
//! its text without trailing white space.
use vstd::prelude::*;
use crate::model::{DeagleError, Language, all_ascii, ascii_lower, extension_language, language_extensions, language_of_key, lemma_extensions_name_their_language, lemma_key_names_listing_language, lowercase};
use crate::text::{concat, is_white_space, owned, str_eq, str_starts_with, trim_end, trim_end_spec};

verus! {

/// `grep_regex::RegexMatcher`, a compiled regular expression, known to the
/// verifier only as an opaque value.
#[verifier::external_type_specification]
#[verifier::external_body]
pub struct ExRegexMatcher(grep_regex::RegexMatcher);

/// A text search match with its location.
#[derive(Debug, Clone)]
pub struct TextMatch {
    /// File path
    pub file_path: String,
    /// Line number (1-indexed)
    pub line_number: u64,
    /// Matched line content (trimmed)
    pub line: String,
}

/// A text match as the specifications see it.
pub ghost struct TextMatchView {
    pub file_path: Seq<char>,
    pub line_number: u64,
    pub line: Seq<char>,
}

impl View for TextMatch {
    type V = TextMatchView;

    open spec fn view(&self) -> TextMatchView {
        TextMatchView { file_path: self.file_path@, line_number: self.line_number, line: self.line@ }
    }
}

/// A compiled regular expression together with the pattern it was
/// compiled from (its view).
pub struct Regex {
    matcher: grep_regex::RegexMatcher,
    pattern: Ghost<Seq<char>>,
}

impl View for Regex {
    type V = Seq<char>;

    closed spec fn view(&self) -> Seq<char> {
        self.pattern@
    }
}

/// Why `grep_regex::RegexMatcher::new` rejects `pattern` (the error's
/// message), or `None` when it accepts it.
pub uninterp spec fn regex_error(pattern: Seq<char>) -> Option<Seq<char>>;

/// What `grep_searcher::Searcher::search_slice` reports for a matcher
/// compiled from `pattern` over `content`, with a `UTF8` sink: the matching
/// lines with their one-based numbers, in order, and the error that ended
/// the search early, if any.
pub uninterp spec fn grep_lines(pattern: Seq<char>, content: Seq<u8>) -> (
    Seq<(u64, Seq<char>)>,
    Option<Seq<char>>,
);

/// Compiles `pattern` with `grep_regex::RegexMatcher::new`; on failure the
/// error's message. The contract names the outcome.
#[verifier::external_body]
fn build_matcher(pattern: &str) -> (r: Result<grep_regex::RegexMatcher, String>)
    ensures
        match r {
            Ok(_) => regex_error(pattern@) is None,
            Err(m) => regex_error(pattern@) == Some(m@),
        },
{
    grep_regex::RegexMatcher::new(pattern).map_err(|e| e.to_string())
}

/// Runs a default `grep_searcher::Searcher` over `content` with `re`'s
/// matcher and a `grep_searcher::sinks::UTF8` sink that keeps every line
/// number and line it is handed; the search's error, if any, as its
/// message. The contract names the outcome for the pattern `re` was
/// compiled from: a `Regex` only ever holds the matcher built from its view.
#[verifier::external_body]
fn search_lines(re: &Regex, content: &[u8]) -> (r: (Vec<(u64, String)>, Option<String>))
    ensures
        r.0@.map_values(|p: (u64, String)| (p.0, p.1@)) == grep_lines(re@, content@).0,
        match r.1 {
            Some(m) => grep_lines(re@, content@).1 == Some(m@),
            None => grep_lines(re@, content@).1 is None,
        },
{
    let mut found: Vec<(u64, String)> = Vec::new();
    let sink = grep_searcher::sinks::UTF8(|number, line| {
        found.push((number, line.to_string()));
        Ok(true)
    });
    let outcome = grep_searcher::Searcher::new().search_slice(&re.matcher, content, sink);
    (found, outcome.err().map(|e| e.to_string()))
}

impl Regex {
    /// Compiles `pattern`; on failure the compiler's message.
    pub fn new(pattern: &str) -> (r: Result<Regex, String>)
        ensures
            match regex_error(pattern@) {
                Some(m) => r matches Err(e) && e@ == m,
                None => r matches Ok(re) && re@ == pattern@,
            },
    {
        match build_matcher(pattern) {
            Ok(matcher) => Ok(Regex { matcher, pattern: Ghost(pattern@) }),
            Err(m) => Err(m),
        }
    }
}

/// The match reported for line `line`, numbered `number`, of the file at `path`.
pub open spec fn text_match(path: Seq<char>, number: u64, line: Seq<char>) -> TextMatchView {
    TextMatchView { file_path: path, line_number: number, line: trim_end_spec(line) }
}

/// The matches reported for the matching lines `lines` of the file at `path`.
pub open spec fn matches_in(path: Seq<char>, lines: Seq<(u64, Seq<char>)>) -> Seq<TextMatchView> {
    lines.map_values(|p: (u64, Seq<char>)| text_match(path, p.0, p.1))
}

/// The views of a list of matches.
pub open spec fn match_views(v: Seq<TextMatch>) -> Seq<TextMatchView> {
    v.map_values(|m: TextMatch| m@)
}

/// The error reported for a pattern the regex compiler rejects with `msg`.
pub open spec fn invalid_regex(e: DeagleError, msg: Seq<char>) -> bool {
    e matches DeagleError::Other(m) && m@ == "Invalid regex: "@ + msg
}

/// The error reported for a search that stopped with `msg`.
pub open spec fn search_failure(e: DeagleError, msg: Seq<char>) -> bool {
    e matches DeagleError::Other(m) && m@ == "Search error: "@ + msg
}

/// Compiles `pattern`, reporting a rejected one as `Invalid regex: ...`.
pub fn compile_pattern(pattern: &str) -> (r: Result<Regex, DeagleError>)
    ensures
        match regex_error(pattern@) {
            Some(m) => r matches Err(e) && invalid_regex(e, m),
            None => r matches Ok(re) && re@ == pattern@,
        },
{
    match Regex::new(pattern) {
        Ok(re) => Ok(re),
        Err(m) => Err(DeagleError::Other(concat("Invalid regex: ", m.as_str()))),
    }
}

/// The lines of `content` that `re` matches, as matches in the file at
/// `path`, and the message of the error that ended the search, if any.
pub fn search_content(re: &Regex, path: &str, content: &[u8]) -> (r: (Vec<TextMatch>, Option<String>))
    ensures
        match_views(r.0@) == matches_in(path@, grep_lines(re@, content@).0),
        match r.1 {
            Some(m) => grep_lines(re@, content@).1 == Some(m@),
            None => grep_lines(re@, content@).1 is None,
        },
{
    let (lines, failure) = search_lines(re, content);
    let ghost want = grep_lines(re@, content@).0;
    let mut out: Vec<TextMatch> = Vec::new();
    let mut i: usize = 0;
    while i < lines.len()
        invariant
            i <= lines@.len(),
            lines@.map_values(|p: (u64, String)| (p.0, p.1@)) == want,
            out@.len() == i,
            forall|k: int|
                0 <= k < i ==> (#[trigger] out@[k])@ == text_match(path@, want[k].0, want[k].1),
        decreases lines@.len() - i,
    {
        let (number, line) = (lines[i].0, &lines[i].1);
        assert(want[i as int] == (number, line@));
        out.push(TextMatch { file_path: owned(path), line_number: number, line: trim_end(line.as_str()) });
        i = i + 1;
    }
    assert(match_views(out@) =~= matches_in(path@, want));
    (out, failure)
}

/// Searches one file's bytes for a regex: every matching line with its
/// number and its text without trailing white space. Fails when the
/// pattern is not a valid regex, or when the search stops on an error.
pub fn search_file(path: &str, content: &[u8], pattern: &str) -> (r: Result<Vec<TextMatch>, DeagleError>)
    ensures
        match regex_error(pattern@) {
            Some(m) => r matches Err(e) && invalid_regex(e, m),
            None => match grep_lines(pattern@, content@) {
                (lines, None) => r matches Ok(v) && match_views(v@) == matches_in(path@, lines),
                (_, Some(m)) => r matches Err(e) && search_failure(e, m),
            },
        },
{
    let re = match compile_pattern(pattern) {
        Ok(re) => re,
        Err(e) => return Err(e),
    };
    let (found, failure) = search_content(&re, path, content);
    match failure {
        Some(m) => Err(DeagleError::Other(concat("Search error: ", m.as_str()))),
        None => Ok(found),
    }
}

/// A directory the recursive search passes over: hidden ones (a name
/// starting with `.`), `target`, `node_modules` and `vendor`.
pub open spec fn skipped_dir(name: Seq<char>) -> bool {
    ||| (name.len() > 0 && name[0] == '.')
    ||| name == "target"@
    ||| name == "node_modules"@
    ||| name == "vendor"@
}

/// The recursive search passes over every hidden directory (a name that
/// starts with `.`, such as `.git`) and over `target`, `node_modules` and
/// `vendor`, and over nothing else.
pub proof fn lemma_skipped_dirs(name: Seq<char>)
    ensures
        name.len() > 0 && name[0] == '.' ==> skipped_dir(name),
        skipped_dir("target"@),
        skipped_dir("node_modules"@),
        skipped_dir("vendor"@),
        skipped_dir(name) ==> (name.len() > 0 && name[0] == '.') || name == "target"@ || name == "node_modules"@
            || name == "vendor"@,
{
}

/// Whether the recursive search passes over a directory named `name`.
pub fn skips_dir(name: &str) -> (r: bool)
    ensures
        r == skipped_dir(name@),
{
    let hidden = str_starts_with(name, ".");
    proof {
        reveal_strlit(".");
        if name@.len() > 0 {
            assert(name@.subrange(0, 1)[0] == name@[0]);
            if name@[0] == '.' {
                assert(name@.subrange(0, 1) =~= "."@);
            }
        }
    }
    hidden || str_eq(name, "target") || str_eq(name, "node_modules") || str_eq(name, "vendor")
}

/// Whether a file with extension `ext` is searched under the language
/// filter: every file without a filter, otherwise the files whose
/// extension names the filter's language.
pub open spec fn kept_by_filter(ext: Seq<char>, filter: Option<Language>) -> bool {
    match filter {
        Some(l) => language_of_key(lowercase(ext)) == l,
        None => true,
    }
}

/// Whether a language filter lets a file with extension `ext` through: no
/// filter lets every file through; filter `l` lets through the files whose
/// extension names `l`, in any letter case.
pub open spec fn filter_keeps(ext: Seq<char>, filter: Option<Language>) -> bool {
    match filter {
        Some(l) => extension_language(ext) == l,
        None => true,
    }
}

/// Whether the recursive search reads a file with extension `ext`.
pub fn keeps_file(ext: &str, filter: Option<Language>) -> (r: bool)
    ensures
        r == kept_by_filter(ext@, filter),
        r == filter_keeps(ext@, filter),
{
    match filter {
        Some(l) => Language::from_extension(ext) == l,
        None => true,
    }
}

/// A language filter lets through every extension its language lists, in
/// lower or upper case; with no filter every file is read; and for an ASCII
/// extension, filter `l` (a known language) lets it through exactly when
/// `l` lists the extension's lowercase form.
pub proof fn lemma_filter_keeps_listed_extensions(l: Language, ext: Seq<char>)
    ensures
        forall|i: int|
            0 <= i < language_extensions(l).len() ==> filter_keeps(
                #[trigger] language_extensions(l)[i],
                Some(l),
            ),
        filter_keeps(ext, None),
        l != Language::Unknown && all_ascii(ext) ==> (filter_keeps(ext, Some(l))
            <==> language_extensions(l).contains(ascii_lower(ext))),
{
    lemma_extensions_name_their_language(l);
    if l != Language::Unknown && all_ascii(ext) {
        lemma_key_names_listing_language(ascii_lower(ext), l);
    }
}

proof fn lemma_trim_end_ends(s: Seq<char>)
    ensures
        trim_end_spec(s).len() > 0 ==> !is_white_space(trim_end_spec(s).last()),
    decreases s.len(),
{
    if s.len() > 0 && is_white_space(s.last()) {
        lemma_trim_end_ends(s.drop_last());
    }
}

/// A reported line never ends in white space.
pub proof fn lemma_match_line_trimmed(path: Seq<char>, number: u64, line: Seq<char>)
    ensures
        text_match(path, number, line).line.len() > 0 ==> !is_white_space(
            text_match(path, number, line).line.last(),
        ),
{
    lemma_trim_end_ends(line);
}

} // verus!
