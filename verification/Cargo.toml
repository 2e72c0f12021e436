[package]
name = "test_providers"
version = "0.1.0"
edition = "2021"
publish = false

[dependencies]
anyhow = "1"
clap = { version = "4", features = ["derive"] }
ethereum_ssz = "=0.5.4"
rand = "=0.8.8"
surf = { version = "=2.3.2", default-features = false, features = ["h1-client-rustls"] }
tokio = { version = "1", features = ["macros", "rt-multi-thread"] }
tracing = "0.1"
url = "=2.5.8"

[dev-dependencies]
ssz_types = "0.5.4"
