[package]
name = "typeweld"
version = "0.1.0"
edition = "2021"
publish = false

[dependencies]
serde = { version = "=1.0.229", features = ["derive"] }
serde_json = "=1.0.154"
uuid = "=1.29.0"
chrono = { version = "=0.4.45", default-features = false, features = ["std"] }
rust_decimal = "=1.43.0"
cargo_metadata = "*"
syn = { version = "2", features = ["full", "visit"] }
proc-macro2 = { version = "1", features = ["span-locations"] }
tokio = { version = "1", features = ["rt", "rt-multi-thread", "process", "io-util", "io-std", "sync", "time", "macros", "fs"] }
lsp-types = "*"
