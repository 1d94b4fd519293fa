[package]
name = "audioqueue"
version = "0.1.0"
edition = "2021"
publish = false

[dependencies]
anyhow = "*"
axum = { version = "*", features = ["multipart"] }
calamine = "*"
csv = "*"
dirs = "*"
lofty = "*"
mime_guess = "*"
reqwest = { version = "*", default-features = false }
rust_xlsxwriter = "*"
sanitize-filename = "*"
serde = { version = "*", features = ["derive"] }
serde_json = "*"
tokio = { version = "*", features = ["rt-multi-thread", "macros", "sync", "io-util", "process", "fs", "net", "time"] }
tokio-util = { version = "*", features = ["io"] }
tower-http = { version = "*", features = ["cors", "fs"] }
tracing = "*"
tracing-subscriber = { version = "*", features = ["env-filter"] }
uuid = { version = "*", features = ["v4"] }
