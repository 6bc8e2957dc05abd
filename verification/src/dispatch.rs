//! Picks the extractor for a file's language.
use vstd::prelude::*;
use crate::extract::{all_entities_of, lemma_entity_lines, file_entity, parse_failure, parse_value, path_file_name};
use crate::go_parser;
use crate::model::{DeagleError, Language, Node, NodeValue, ParseResult, language_of_key, lowercase, node_values};
use crate::python_parser;
use crate::rust_parser;
use crate::grammar::{Grammar, syntax_view, tree_rows_in_order};
use vstd::utf8::encode_utf8;
use crate::syntax::TreeView;
use crate::typescript_parser;
use crate::{c_parser, cpp_parser, java_parser};

verus! {

/// The syntax tree the extractor of `lang` reads, and the entities it
/// finds in it, for the languages [`parse_file`] handles. Ruby is not among
/// them: its extractor stands on its own in `ruby_parser`.
pub open spec fn dispatched(lang: Language, path: Seq<char>, content: Seq<char>) -> Option<
    (Option<TreeView>, Seq<NodeValue>),
> {
    match lang {
        Language::Rust => Some(
            (
                syntax_view(Grammar::Rust, content),
                match syntax_view(Grammar::Rust, content) {
                    Some(t) => rust_parser::rust_entities(t, path),
                    None => seq![],
                },
            ),
        ),
        Language::Python => Some(
            (
                syntax_view(Grammar::Python, content),
                match syntax_view(Grammar::Python, content) {
                    Some(t) => python_parser::python_entities(t, path),
                    None => seq![],
                },
            ),
        ),
        Language::Go => Some(
            (
                syntax_view(Grammar::Go, content),
                match syntax_view(Grammar::Go, content) {
                    Some(t) => go_parser::go_entities(t, path),
                    None => seq![],
                },
            ),
        ),
        Language::TypeScript | Language::JavaScript => Some(
            (
                syntax_view(Grammar::Tsx, content),
                match syntax_view(Grammar::Tsx, content) {
                    Some(t) => typescript_parser::typescript_entities(t, path),
                    None => seq![],
                },
            ),
        ),
        Language::Java => Some(
            (
                syntax_view(Grammar::Java, content),
                match syntax_view(Grammar::Java, content) {
                    Some(t) => java_parser::java_entities(t, path),
                    None => seq![],
                },
            ),
        ),
        Language::C => Some(
            (
                syntax_view(Grammar::C, content),
                match syntax_view(Grammar::C, content) {
                    Some(t) => c_parser::c_entities(t, path),
                    None => seq![],
                },
            ),
        ),
        Language::Cpp => Some(
            (
                syntax_view(Grammar::Cpp, content),
                match syntax_view(Grammar::Cpp, content) {
                    Some(t) => cpp_parser::cpp_entities(t, path),
                    None => seq![],
                },
            ),
        ),
        Language::Ruby | Language::Unknown => None,
    }
}

/// The grammar the extractor of `lang` parses with (for the languages
/// [`parse_file`] handles).
pub open spec fn grammar_for(lang: Language) -> Grammar {
    match lang {
        Language::Python => Grammar::Python,
        Language::Go => Grammar::Go,
        Language::TypeScript | Language::JavaScript => Grammar::Tsx,
        Language::Java => Grammar::Java,
        Language::C => Grammar::C,
        Language::Cpp => Grammar::Cpp,
        _ => Grammar::Rust,
    }
}

/// The language the nodes of a parse carry: JavaScript is read, and
/// labelled, as TypeScript.
pub open spec fn parser_language(lang: Language) -> Language {
    if lang == Language::JavaScript {
        Language::TypeScript
    } else {
        lang
    }
}

/// The nodes parsing `content` at `path` as `lang` yields: `None` when the
/// grammar cannot be loaded; no nodes at all for a language without an
/// extractor here.
pub open spec fn parsed_nodes(lang: Language, path: Seq<char>, content: Seq<char>) -> Option<
    Seq<NodeValue>,
> {
    match dispatched(lang, path, content) {
        Some((Some(_), defs)) => Some(seq![file_entity(path, content, parser_language(lang))] + defs),
        Some((None, _)) => None,
        None => Some(seq![]),
    }
}

/// After the file node, each node starts on line 1 or later and ends on
/// its starting line or after it.
pub open spec fn entity_lines_ordered(nodes: Seq<NodeValue>) -> bool {
    forall|k: int| 1 <= k < nodes.len() ==> 1 <= #[trigger] nodes[k].line_start <= nodes[k].line_end
}

/// The entities of a parse whose syntax tree has its rows in order have
/// ordered lines.
proof fn lemma_parse_lines(lang: Language, path: Seq<char>, content: Seq<char>)
    requires
        dispatched(lang, path, content) matches Some((Some(t), _)) && tree_rows_in_order(t),
    ensures
        parsed_nodes(lang, path, content) matches Some(v) ==> entity_lines_ordered(v),
{
    lemma_parse_entities_of_file(lang, path, content);
    if let Some((Some(t), defs)) = dispatched(lang, path, content) {
        let v = seq![file_entity(path, content, parser_language(lang))] + defs;
        assert forall|k: int| 1 <= k < v.len() implies 1 <= #[trigger] v[k].line_start <= v[k].line_end by {
            assert(v[k] == defs[k - 1]);
            lemma_entity_lines(defs[k - 1], t, parser_language(lang), path);
        }
    }
}

/// Parse a source file and extract code entities: Rust, Python, Go,
/// TypeScript/JavaScript (read as TypeScript), Java, C and C++. Any other
/// language (Ruby, or unknown) gives no entities.
/// For a source of fewer than `u32::MAX` bytes, every entity after the
/// file node starts on line 1 or later and ends on its starting line or
/// after it.
pub fn parse_file(path: &str, content: &str, language: Language) -> (r: Result<Vec<Node>, DeagleError>)
    ensures
        match parsed_nodes(language, path@, content@) {
            Some(v) => r matches Ok(n) && node_values(n@) == v,
            None => r matches Err(e) && parse_failure(e, path@, grammar_for(language)),
        },
        r matches Ok(n) ==> (encode_utf8(content@).len() < u32::MAX ==> entity_lines_ordered(node_values(n@))),
{
    let r = match language {
        Language::Rust => rust_parser::parse(path, content),
        Language::Python => python_parser::parse(path, content),
        Language::Go => go_parser::parse(path, content),
        Language::TypeScript | Language::JavaScript => typescript_parser::parse(path, content),
        Language::Java => java_parser::parse(path, content),
        Language::C => c_parser::parse(path, content),
        Language::Cpp => cpp_parser::parse(path, content),
        Language::Ruby | Language::Unknown => {
            let v: Vec<Node> = Vec::new();
            assert(node_values(v@) =~= Seq::<NodeValue>::empty());
            Ok(v)
        },
    };
    proof {
        if encode_utf8(content@).len() < u32::MAX && dispatched(language, path@, content@) matches Some((Some(t), _)) {
            lemma_parse_lines(language, path@, content@);
        }
    }
    r
}

/// Parse with edge extraction: nodes and `Contains` edges for the languages
/// [`parse_file`] handles; an empty result for any other.
pub fn parse_file_with_edges(path: &str, content: &str, language: Language) -> (r: Result<
    ParseResult,
    DeagleError,
>)
    ensures
        match dispatched(language, path@, content@) {
            Some((Some(_), defs)) => r matches Ok(p) && parse_value(p, path@, content@, parser_language(language), defs),
            Some((None, _)) => r matches Err(e) && parse_failure(e, path@, grammar_for(language)),
            None => r matches Ok(p) && p.nodes@.len() == 0 && p.edges@.len() == 0,
        },
        r matches Ok(p) ==> (encode_utf8(content@).len() < u32::MAX ==> entity_lines_ordered(
            node_values(p.nodes@),
        )),
{
    let r = match language {
        Language::Rust => rust_parser::parse_with_edges(path, content),
        Language::Python => python_parser::parse_with_edges(path, content),
        Language::Go => go_parser::parse_with_edges(path, content),
        Language::TypeScript | Language::JavaScript => typescript_parser::parse_with_edges(path, content),
        Language::Java => java_parser::parse_with_edges(path, content),
        Language::C => c_parser::parse_with_edges(path, content),
        Language::Cpp => cpp_parser::parse_with_edges(path, content),
        Language::Ruby | Language::Unknown => Ok(ParseResult { nodes: Vec::new(), edges: Vec::new() }),
    };
    proof {
        if encode_utf8(content@).len() < u32::MAX && dispatched(language, path@, content@) matches Some((Some(t), _)) {
            lemma_parse_lines(language, path@, content@);
        }
    }
    r
}

/// Position of the last `.` in `name`, `-1` when it has none.
pub open spec fn last_dot(name: Seq<char>) -> int
    decreases name.len(),
{
    if name.len() == 0 {
        -1
    } else if name.last() == '.' {
        name.len() - 1
    } else {
        last_dot(name.drop_last())
    }
}

/// The extension of a file name: the part after its last `.`; none when the
/// name has no `.`, or its only `.` is the first character.
pub open spec fn name_extension(name: Seq<char>) -> Option<Seq<char>> {
    if last_dot(name) <= 0 {
        None
    } else {
        Some(name.subrange(last_dot(name) + 1, name.len() as int))
    }
}

/// The extension of the file a path leads to: that of its file name, none
/// when the path has no file name.
pub open spec fn path_extension(path: Seq<char>) -> Option<Seq<char>> {
    match path_file_name(path) {
        Some(n) => name_extension(n),
        None => None,
    }
}

/// `std::path::Path::extension`: as its documentation states, none when the
/// path has no file name (`Path::file_name`), none when that name has no
/// `.` or begins with its only `.`, and otherwise the part of the name after
/// its last `.`.
#[verifier::external_body]
fn extension(path: &str) -> (r: Option<String>)
    ensures
        match (r, path_extension(path@)) {
            (Some(a), Some(b)) => a@ == b,
            (None, None) => true,
            _ => false,
        },
{
    std::path::Path::new(path).extension().and_then(|e| e.to_str()).map(String::from)
}

/// The language a path's extension names (`Unknown` when it has none).
pub open spec fn language_of_path(path: Seq<char>) -> Language {
    language_of_key(
        lowercase(
            match path_extension(path) {
                Some(e) => e,
                None => Seq::empty(),
            },
        ),
    )
}

/// Detect language from the file extension and parse.
pub fn parse_auto(path: &str, content: &str) -> (r: Result<Vec<Node>, DeagleError>)
    ensures
        match parsed_nodes(language_of_path(path@), path@, content@) {
            Some(v) => r matches Ok(n) && node_values(n@) == v,
            None => r matches Err(e) && parse_failure(e, path@, grammar_for(language_of_path(path@))),
        },
        r matches Ok(n) ==> (encode_utf8(content@).len() < u32::MAX ==> entity_lines_ordered(node_values(n@))),
{
    let ext = match extension(path) {
        Some(e) => e,
        None => String::new(),
    };
    let lang = Language::from_extension(ext.as_str());
    parse_file(path, content, lang)
}

/// Every node a parse yields after the file node is an entity of that file,
/// cut from a node of the file's syntax tree: unsaved, not itself a file
/// node, and carrying the file's path and the language the parse tags its
/// nodes with.
pub proof fn lemma_parse_entities_of_file(lang: Language, path: Seq<char>, content: Seq<char>)
    ensures
        dispatched(lang, path, content) matches Some((Some(t), defs)) ==> all_entities_of(
            defs,
            t,
            parser_language(lang),
            path,
        ),
{
    if let Some((Some(t), defs)) = dispatched(lang, path, content) {
        match lang {
            Language::Rust => rust_parser::lemma_rust_entities_of_file(t, path),
            Language::Python => python_parser::lemma_python_entities_of_file(t, path),
            Language::Go => go_parser::lemma_go_entities_of_file(t, path),
            Language::TypeScript | Language::JavaScript => typescript_parser::lemma_typescript_entities_of_file(t, path),
            Language::Java => java_parser::lemma_java_entities_of_file(t, path),
            Language::C => c_parser::lemma_c_entities_of_file(t, path),
            Language::Cpp => cpp_parser::lemma_cpp_entities_of_file(t, path),
            _ => {},
        }
    }
}

/// JavaScript is read, and labelled, as TypeScript: every node a
/// JavaScript (or TypeScript) file parses to is tagged TypeScript.
pub proof fn lemma_javascript_reads_as_typescript(lang: Language, path: Seq<char>, content: Seq<char>)
    requires
        lang == Language::JavaScript || lang == Language::TypeScript,
    ensures
        parsed_nodes(lang, path, content) matches Some(v) ==> forall|k: int|
            0 <= k < v.len() ==> #[trigger] v[k].language == Language::TypeScript,
{
    lemma_parse_entities_of_file(lang, path, content);
    if let Some((Some(t), defs)) = dispatched(lang, path, content) {
        let v = seq![file_entity(path, content, Language::TypeScript)] + defs;
        assert forall|k: int| 0 <= k < v.len() implies #[trigger] v[k].language == Language::TypeScript by {
            if k > 0 {
                assert(v[k] == defs[k - 1]);
            }
        }
    }
}

} // verus!
