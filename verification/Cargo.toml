[package]
name = "logagent"
version = "0.1.0"
edition = "2021"
publish = false

[dependencies]
anyhow = "*"
chrono = "*"
config = { version = "*", default-features = false, features = ["yaml"] }
gethostname = "*"
notify = "*"
os_info = "*"
prost = "*"
prost-types = "*"
serde = { version = "*", features = ["derive"] }
serde_yaml = "*"
sysinfo = "*"
tokio = { version = "*", features = ["full"] }
tokio-stream = "*"
tokio-util = "*"
tonic = "*"
tracing = "*"
tracing-subscriber = { version = "*", features = ["env-filter"] }
uuid = { version = "*", features = ["v4"] }
