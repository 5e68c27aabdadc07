[package]
name = "open_eidas"
version = "0.1.0"
edition = "2021"
publish = false

[dependencies]
hex = "=0.4.3"
hmac = "=0.12.1"
sha1 = "=0.10.7"
sha2 = { version = "=0.10.9", features = ["oid"] }
rsa = "=0.9.10"
der = { version = "=0.8.3", features = ["alloc", "derive", "flagset", "oid", "pem", "std"] }
spki = { version = "=0.8.1", features = ["alloc"] }
x509-cert = "=0.3.0"
time = { version = "=0.3.55", features = ["std"] }
async-trait = "0.1"
axum = "0.8"
clap = { version = "4", features = ["derive"] }
reqwest = { version = "0.12", default-features = false, features = ["rustls-tls"] }
serde_json = "1"
sqlx = { version = "0.8", default-features = false, features = ["runtime-tokio", "postgres", "time", "migrate"] }
thiserror = "2"
tokio = { version = "1", features = ["rt-multi-thread", "macros", "net", "time", "sync"] }
tracing = "0.1"
tracing-subscriber = "0.3"
