[package]
name = "kubelet_adapters"
version = "0.1.0"
edition = "2021"
publish = false

[dependencies]
async-trait = "=0.1.92"
chrono = { version = "=0.4.45", features = ["serde"] }
dashmap = "=6.2.1"
futures = "=0.3.34"
hostname = "=0.4.2"
hyper-util = { version = "0.1", features = ["tokio"] }
k8s-openapi = { version = "=0.22.0", features = ["v1_30"] }
kube = { version = "=0.91.0", default-features = false, features = ["client", "config", "runtime"] }
libc = "=0.2.191"
prost = "0.13"
rcgen = "=0.13.2"
reqwest = { version = "=0.12.28", default-features = false }
serde = { version = "=1.0.229", features = ["derive"] }
serde_json = "=1.0.154"
serde_yaml = "=0.9.34"
tokio = { version = "=1.54.1", features = ["full"] }
tonic = "0.12"
tower = { version = "0.5", features = ["util"] }
tracing = "=0.1.44"
uuid = { version = "=1.29.0", features = ["v4", "v5"] }
