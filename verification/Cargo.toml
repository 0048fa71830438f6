[package]
name = "json2rust"
version = "0.1.0"
edition = "2021"
publish = false

[dependencies]
serde_json = "1"
syn = { version = "2", features = ["full"] }
quote = "1"
serde = { version = "1", features = ["derive"] }
thiserror = "1"
clap = "4"
tokio = { version = "1", features = ["macros", "rt-multi-thread"] }
wasm-bindgen = "0.2"
