[package]
name = "wiktionary_data"
version = "0.1.0"
edition = "2021"
publish = false

[dependencies]
parse_wiki_text = "*"
parse_mediawiki_dump = "*"
bzip2 = "*"
serde = { version = "*", features = ["derive"] }
serde_json = "*"
serde_cbor = "*"
crossbeam-channel = "*"
