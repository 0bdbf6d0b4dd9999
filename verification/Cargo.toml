[package]
name = "rsef-rs"
version = "0.1.0"
edition = "2021"
publish = false

[dependencies]
bzip2 = "=0.6.1"
chrono = "=0.4.45"
libflate = "=2.3.2"
reqwest = { version = "=0.13.5", default-features = false, features = ["native-tls"] }
