[package]
name = "kube_tunnel"
version = "0.1.0"
edition = "2021"
publish = false

[dependencies]
anyhow = "1"
futures = "0.3"
k8s-openapi = { version = "0.20", features = ["v1_28"] }
kube = { version = "0.87", default-features = false, features = ["client", "config", "rustls-tls", "ws"] }
tokio = { version = "1", features = ["io-util", "macros", "net", "rt-multi-thread", "sync"] }
tracing = "0.1"
tracing-log = "0.2"
tracing-subscriber = "0.3"
