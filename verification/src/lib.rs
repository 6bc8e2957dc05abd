//! Code intelligence: extracts code entities from source files, searches
//! them by name, by structure and by text, and keeps them in a graph store.
pub mod model;
pub mod text;
pub mod syntax;
pub mod grammar;
pub mod extract;
pub mod go_parser;
pub mod rust_parser;
pub mod ruby_parser;
pub mod c_parser;
pub mod cpp_parser;
pub mod python_parser;
pub mod java_parser;
pub mod typescript_parser;
pub mod dispatch;
pub mod pattern;
pub mod text_search;
pub mod query;
pub mod ranking;
pub mod store;
pub mod loc;

pub use dispatch::{parse_auto, parse_file, parse_file_with_edges};
pub use model::{DeagleError, EdgeKind, Language, Node, NodeKind, ParseResult};
