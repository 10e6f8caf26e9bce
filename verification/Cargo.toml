[package]
name = "oxidized_wall"
version = "0.1.0"
edition = "2021"
publish = false

[dependencies]
aho-corasick = "1"
bytes = "1"
dashmap = "6"
http-body-util = "0.1"
hyper = { version = "1", features = ["full"] }
hyper-util = { version = "0.1", features = ["full"] }
notify = "*"
regex = "1"
rustls = { version = "0.23", default-features = false, features = ["ring", "std", "tls12", "logging"] }
rustls-pemfile = "2"
serde = { version = "1", features = ["derive"] }
tokio = { version = "1", features = ["full"] }
tokio-rustls = { version = "0.26", default-features = false, features = ["ring", "tls12", "logging"] }
tokio-util = { version = "0.7", features = ["full"] }
toml = "0.8"
tracing = "0.1"
tracing-subscriber = "0.3"
