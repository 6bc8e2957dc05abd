# deagle

Code intelligence for source trees: deagle extracts code entities
(functions, methods, classes, structs, traits, imports, ...) from source
files with tree-sitter grammars, finds code by structural ast-grep patterns
and by regular expressions, and keeps the entities in an SQLite graph that
can be searched by name, fuzzily, or by keyword.

The library is written in Verus, and its behaviour is stated in contracts
that Verus proves.

## Layout

- `src/` — the verified library
  - `model.rs` — nodes, kinds, languages, edges, errors; names and file extensions
  - `text.rs` — character-level text helpers (trimming, words, lines, excerpts)
  - `syntax.rs`, `grammar.rs` — syntax trees read from tree-sitter, with parents
    recovered from node depths
  - `extract.rs` and `*_parser.rs` — the per-language entity extractors
    (Rust, Python, Go, TypeScript/JavaScript, Java, C, C++, Ruby)
  - `dispatch.rs` — choosing the extractor for a file (every language above
    but Ruby, whose extractor is used directly)
  - `pattern.rs` — ast-grep structural search and pattern completion
  - `text_search.rs` — regex search with ripgrep's library crates
  - `query.rs` — FTS5-safe keyword queries and symbol-search filters
  - `ranking.rs` — stable descending ranking (merge sort)
  - `store.rs` — what the graph store computes: stored names, rows, fuzzy
    ranking, content hashes, edge resolution
  - `loc.rs` — the lines-of-code report
- `tests/` — tests of the library
- `app/` — the `deagle` command line: argument parsing, directory walks, the
  SQLite store (rusqlite), line counting (tokei) and output; run as
  `deagle-serve` it is the HTTP API (axum), run as `deagle-mcp` the MCP
  server over stdio (rmcp)
