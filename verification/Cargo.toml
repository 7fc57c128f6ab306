[package]
name = "kube_depre"
version = "0.1.0"
edition = "2021"
publish = false

[dependencies]
yaml-rust = "0.4"
comfy-table = "7"
csv = "1"
serde = { version = "1", features = ["derive"] }
serde_json = "1"
anyhow = "1"
async-trait = "0.1"
clap = { version = "4", features = ["derive"] }
env_logger = "0.10"
log = "0.4"
jwalk = "0.8"
rayon = "1"
tokio = { version = "1", features = ["macros", "rt-multi-thread"] }
reqwest = { version = "0.11", default-features = false, features = ["json", "rustls-tls"] }
kube = { version = "0.87", features = ["client", "rustls-tls"] }
k8s-openapi = { version = "0.20", features = ["v1_26"] }
