[package]
name = "rm2"
version = "0.1.0"
edition = "2021"
publish = false

[dependencies]
homedir = "0.2"
interprocess = { version = "=2.4.7", features = ["tokio"] }
rmp-serde = "=1.3.1"
serde = { version = "=1.0.229", features = ["derive"] }
tokio = { version = "=1.54.1", features = ["fs", "io-util", "macros", "process", "rt-multi-thread", "sync"] }
toml = "=0.8.23"
