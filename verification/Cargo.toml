[package]
name = "promptforge"
version = "0.1.0"
edition = "2021"
publish = false

[dependencies]
pulldown-cmark = { version = "0.13", default-features = false }
clap = "4"
sha2 = "0.10"
subtle = "2"
fastrand = "2"
mlua = { version = "0.10", features = ["lua54", "vendored", "serialize"] }
serde = { version = "1", features = ["derive"] }
serde_json = "1"
anyhow = "1"
tokio = { version = "1", features = ["rt-multi-thread", "macros", "fs", "signal", "sync"] }
axum = "0.8"
futures-util = "0.3"
tracing = "0.1"
