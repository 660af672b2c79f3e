[package]
name = "codex_runtime"
version = "0.1.0"
edition = "2021"
publish = false

[dependencies]
async-channel = "=2.5.0"
base64 = "=0.22.1"
clatter = { version = "=2.3.0", default-features = false, features = ["std", "use-aes-gcm", "use-sha", "use-25519", "use-rust-crypto-ml-kem"] }
crossterm = "=0.28.1"
futures = "=0.3.34"
http = "=1.5.0"
rama-core = "=0.3.0-alpha.4"
rama-error = "=0.3.0-alpha.4"
rama-http = "=0.3.0-alpha.4"
rama-http-backend = { version = "=0.3.0-alpha.4", features = ["tls"] }
rama-macros = "=0.3.0-alpha.4"
rama-net = { version = "=0.3.0-alpha.4", features = ["http", "tls"] }
rama-tls-rustls = { version = "=0.3.0-alpha.4", features = ["http"] }
rama-utils = "=0.3.0-alpha.4"
regex-lite = "=0.1.9"
reqwest = { version = "=0.12.28", default-features = false, features = ["json"] }
rmcp = { version = "=3.8.0", default-features = false }
serde = { version = "=1.0.229", features = ["derive"] }
serde_json = "=1.0.154"
sha2 = "=0.10.9"
shlex = "=1.3.0"
thiserror = "=2.0.21"
tokio = { version = "=1.54.1", features = ["full"] }
tokio-tungstenite = "=0.28.0"
tracing = "=0.1.44"
uuid = { version = "=1.29.0", features = ["v4", "v7"] }
