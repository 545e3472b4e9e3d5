[package]
name = "tessera"
version = "0.1.0"
edition = "2021"
publish = false

[dependencies]
pulldown-cmark = { version = "*", default-features = false }
scraper = "*"
quick-xml = "*"
sha2 = "0.10"
hex = "0.4"
zip = "*"
serde = { version = "1", features = ["derive"] }
serde_json = "1"
thiserror = "*"
rusqlite = { version = "*", features = ["bundled"] }
chrono = "0.4"
ulid = "1"
ureq = "2"
calamine = "*"
pdf-extract = "*"
