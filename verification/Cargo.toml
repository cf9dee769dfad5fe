[package]
name = "choochoo"
version = "0.1.0"
edition = "2021"
publish = false

[dependencies]
daggy = "=0.9.0"
tokio = { version = "=1.54.1", features = ["rt", "sync", "io-util"] }
futures = "=0.3.34"
indicatif = "=0.18.6"
resman = "=0.19.0"
srcerr = { version = "=0.4.0", features = ["codespan"] }
serde = { version = "=1.0.229", features = ["derive"] }
