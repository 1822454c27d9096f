[package]
name = "rvpnse"
version = "0.1.0"
edition = "2021"
publish = false

[dependencies]
ring = "0.17"
rand = "0.8"
fastrand = "2"
uuid = { version = "1", features = ["v4"] }
regex = "1"
serde = { version = "1", features = ["derive"] }
toml = "0.8"
tokio = { version = "1", features = ["full"] }
reqwest = { version = "0.12", default-features = false, features = ["rustls-tls"] }
rustls = { version = "0.23", default-features = false, features = ["ring", "std", "tls12"] }
webpki-roots = "0.26"
log = "0.4"
env_logger = "0.11"
libc = "0.2"
