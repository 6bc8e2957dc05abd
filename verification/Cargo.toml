[package]
name = "deagle"
version = "0.1.0"
edition = "2021"
publish = false

[dependencies]
tree-sitter = "=0.27.1"
tree-sitter-rust = "=0.24.2"
tree-sitter-python = "=0.25.0"
tree-sitter-go = "=0.25.0"
tree-sitter-typescript = "=0.23.2"
tree-sitter-java = "=0.23.5"
tree-sitter-c = "=0.24.2"
tree-sitter-cpp = "=0.23.4"
tree-sitter-ruby = "=0.23.1"
ast-grep-core = "=0.51.1"
ast-grep-language = { version = "=0.51.1", default-features = false, features = ["tree-sitter-rust"] }
grep-regex = "=0.1.14"
grep-searcher = "=0.1.17"
sha2 = "=0.11.1"
fuzzy-matcher = "=0.3.7"
rusqlite = { version = "=0.41.1", features = ["bundled"] }
serde = { version = "=1.0.229", features = ["derive"] }
serde_json = "=1.0.154"
thiserror = "=2.0.21"
clap = { version = "=4.6.7", features = ["derive"] }
ignore = "=0.4.34"
rayon = "=1.12.0"
tokei = { version = "=15.0.0", default-features = false }
axum = "*"
tokio = { version = "*", features = ["macros", "rt-multi-thread", "net", "sync"] }
tower-http = { version = "*", features = ["cors"] }
tracing = "*"
tracing-subscriber = { version = "*", features = ["env-filter"] }
rmcp = { version = "*", features = ["server", "macros", "transport-io"] }
