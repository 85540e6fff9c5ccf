[package]
name = "onekp"
version = "0.1.0"
edition = "2021"
publish = false

[dependencies]
select = "0.6"
anyhow = "1"
clap = { version = "4", features = ["derive"] }
colored = "2"
reqwest = { version = "0.12", default-features = false, features = ["rustls-tls"] }
tokio = { version = "1", features = ["macros", "rt-multi-thread"] }
