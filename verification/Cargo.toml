[package]
name = "rusty_embedder"
version = "0.1.0"
edition = "2021"
publish = false

[dependencies]
reqwest = { version = "=0.12.28", default-features = false, features = ["blocking", "json", "rustls-tls"] }
serde = { version = "=1.0.229", features = ["derive"] }
fastembed = { version = "=4.9.1", default-features = false, features = ["ort-load-dynamic", "hf-hub-rustls-tls"] }
