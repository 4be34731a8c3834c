[package]
name = "web_xml"
version = "0.1.0"
edition = "2021"
publish = false

[dependencies]
quick-xml = "*"
actix-web = { version = "4", default-features = false, features = ["macros"] }
env_logger = { version = "*", default-features = false }
tokio = { version = "1", features = ["rt-multi-thread", "macros", "io-std", "io-util", "process"] }
