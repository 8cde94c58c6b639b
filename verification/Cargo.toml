[package]
name = "fckn_gay"
version = "0.1.0"
edition = "2021"
publish = false

[dependencies]
getrandom = "=0.3.4"
uuid = { version = "=1.29.0", features = ["v4"] }
password-auth = "=1.0.0"
chrono = "=0.4.45"
serde = { version = "=1.0.229", features = ["derive"] }
toml = "=0.8.23"
tokio = { version = "=1.54.1", features = ["full"] }
axum = "=0.8.9"
axum-extra = { version = "=0.10.3", features = ["cookie"] }
tower-http = { version = "=0.6.11", features = ["fs", "catch-panic", "trace"] }
tracing = "=0.1.44"
tracing-subscriber = { version = "=0.3.23", features = ["env-filter"] }
tracing-log = "=0.2.0"
argon2 = "=0.5.3"
anyhow = "=1.0.104"
clap = { version = "=4.6.7", features = ["derive"] }
reqwest = { version = "=0.12.28", features = ["json"] }
lettre = { version = "=0.11.23", features = ["tokio1", "tokio1-native-tls"] }
porkbun-api = "=1.0.4"
hickory-server = "=0.25.2"
async-trait = "=0.1.92"
governor = "=0.10.4"
tower_governor = "=0.8.0"
csv = "=1.4.0"
opentelemetry = "=0.33.1"
opentelemetry_sdk = "=0.33.1"
opentelemetry-otlp = { version = "=0.33.1", features = ["grpc-tonic", "trace"] }
opentelemetry-stdout = "=0.33.1"
tonic = "=0.14.9"
tracing-opentelemetry = "=0.34.0"
