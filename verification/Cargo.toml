[package]
name = "foof"
version = "0.1.0"
edition = "2021"
publish = false

[dependencies]
clap = { version = "=3.2.25", features = ["derive"] }
data-encoding = "=2.11.1"
reqwest = { version = "=0.11.27", default-features = false, features = ["rustls-tls"] }
ring = "=0.17.14"
semver = "=1.0.28"
serde = { version = "=1.0.229", features = ["derive"] }
serde_json = "=1.0.154"
termcolor = "=1.4.1"
tokio = { version = "=1.54.1", features = ["macros", "rt-multi-thread"] }
toml = "=0.5.11"
