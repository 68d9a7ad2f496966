[package]
name = "coxswain"
version = "0.6.0"
edition = "2021"
publish = false

[dependencies]
anyhow = "*"
async-trait = "*"
clap = { version = "*", features = ["derive", "env"] }
futures = "*"
gateway-api = { version = "0.22", features = ["experimental"] }
humantime = "=2.4.0"
ipnet = "=2.12.2"
k8s-openapi = { version = "0.28", features = ["latest"] }
kube = { version = "4.2", default-features = false, features = ["client", "runtime", "rustls-tls", "ring"] }
kube-leader-election = "0.44"
nix = { version = "*", features = ["process"] }
parking_lot = "*"
pingora-cache = "*"
pingora-core = "*"
pingora-proxy = "*"
prometheus = { version = "*", default-features = false }
reqwest = { version = "*", default-features = false }
rustls = { version = "*", default-features = false, features = ["ring", "std"] }
serde_json = "=1.0.154"
thiserror = "*"
tokio = { version = "*", features = ["rt-multi-thread", "macros", "sync", "time"] }
tracing = "*"
tracing-subscriber = { version = "*", features = ["env-filter", "json"] }
