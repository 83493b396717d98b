[package]
name = "surge"
version = "0.1.0"
edition = "2021"
publish = false

[dependencies]
anyhow = "1"
clap = { version = "4", features = ["derive"] }
futures-util = "0.3"
governor = "*"
hex = "0.4"
indicatif = "0.17"
libc = "0.2"
md5 = "0.7"
reqwest = { version = "0.12", default-features = false, features = ["rustls-tls", "stream"] }
sha2 = "*"
tokio = { version = "1", features = ["full"] }
url = "2"
