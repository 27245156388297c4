[package]
name = "nyaadle"
version = "0.1.0"
edition = "2021"
publish = false

[dependencies]
clap = { version = "=3.2.25", features = ["derive"] }
cursive = { version = "=0.21.1", default-features = false, features = ["crossterm-backend"] }
cursive_table_view = "=0.15.0"
dirs = "=4.0.0"
error-chain = "=0.12.4"
log = "=0.4.34"
opener = "=0.5.2"
reqwest = { version = "=0.11.27", default-features = false, features = ["rustls-tls"] }
rss = "=2.1.2"
rusqlite = { version = "=0.24.2", features = ["bundled"] }
simplelog = "=0.11.2"
tokio = { version = "=1.54.1", features = ["rt-multi-thread", "macros"] }

[dev-dependencies]
quick-xml = "=0.41.0"
