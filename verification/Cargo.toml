[package]
name = "lex_k8s"
version = "0.1.0"
edition = "2021"
publish = false

[dependencies]
axum = "*"
axum-server = { version = "*", features = ["tls-rustls"] }
futures = "0.3"
hex = "0.4"
k8s-openapi = { version = "*", features = ["latest"] }
kube = { version = "*", features = ["runtime"] }
rustls = { version = "0.23", default-features = false, features = ["ring"] }
serde = { version = "1", features = ["derive"] }
serde_json = "1"
sha2 = "0.10"
thiserror = "*"
tokio = { version = "1", features = ["rt-multi-thread", "macros"] }
tracing = "0.1"
tracing-subscriber = { version = "0.3", features = ["env-filter"] }
