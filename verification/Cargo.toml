[package]
name = "echo_scribe"
version = "0.1.0"
edition = "2021"
publish = false

[dependencies]
arboard = { version = "3", default-features = false }
chrono = "0.4"
dirs = "*"
enigo = { version = "*", default-features = false, features = ["x11rb"] }
rusqlite = { version = "*", features = ["bundled"] }
serde = { version = "1", features = ["derive"] }
serde_json = "1"
thiserror = "*"
tokio = { version = "1", features = ["full"] }
tracing = "0.1"
ulid = "1"

[dev-dependencies]
tempfile = "3"
