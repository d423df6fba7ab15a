[package]
name = "playground"
version = "0.1.0"
edition = "2021"
publish = false

[dependencies]
regex = "1"
mime = "0.3"
actix-web = { version = "4", default-features = false, features = ["macros"] }
tokio = { version = "1", features = ["sync", "macros", "rt-multi-thread", "time"] }
serde = { version = "1", features = ["derive"] }
serde_json = "1"
serde_qs = "*"
serde-xml-rs = "*"
wasmtime = "13"
wasmtime-wasi = "13"
parking_lot = "0.12"
anyhow = "1"
diesel = { version = "2", default-features = false, features = ["postgres"] }
reqwest = { version = "0.11", default-features = false, features = ["rustls-tls"] }
yaml-config = "*"
time = { version = "0.3", features = ["std"] }
rand = "0.8"
