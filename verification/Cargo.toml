[package]
name = "devops-agent"
version = "0.1.0"
edition = "2021"
publish = false

[dependencies]
serde = { version = "1", features = ["derive"] }
serde_json = "1"
serde_yaml = "0.9"
chrono = "0.4"
reqwest = { version = "0.12", default-features = false, features = ["json", "rustls-tls"] }
tokio = { version = "1", features = ["full"] }
axum = "0.7"
tower-http = { version = "0.5", features = ["fs", "trace", "limit"] }
kube = { version = "0.88", default-features = false, features = ["client", "rustls-tls"] }
k8s-openapi = { version = "0.21", features = ["v1_29"] }
sqlx = { version = "0.7", default-features = false, features = ["sqlite", "runtime-tokio", "macros", "migrate"] }
clap = { version = "4", features = ["derive"] }
thiserror = "1"
tracing = "0.1"
tracing-subscriber = { version = "0.3", features = ["env-filter"] }
dotenvy = "0.15"
futures = "0.3"
rust_xlsxwriter = "0.79"
