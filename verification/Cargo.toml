[package]
name = "k8s-job-dispatcher"
version = "0.1.0"
edition = "2021"
publish = false

[dependencies]
anyhow = "=1.0.104"
clap = { version = "=4.6.7", features = ["derive"] }
env_logger = "0.11"
humantime = "=2.4.0"
json-patch = "=4.2.0"
k8s-openapi = { version = "=0.29.0", features = ["latest"] }
kube = { version = "=5.0.0", features = ["jsonpatch"] }
log = "0.4"
serde_json = "=1.0.154"
serde_yaml = "0.9"
tokio = { version = "=1.54.1", features = ["macros", "rt-multi-thread", "time"] }
