[package]
name = "search_writer"
version = "0.1.0"
edition = "2021"
publish = false

[dependencies]
tantivy = "=0.21.1"
remove_dir_all = "=1.0.0"
anyhow = "1"
tracing = "0.1"
zstd-sys = "=2.0.9"

[dev-dependencies]
tempfile = "3"
