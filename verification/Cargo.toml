[package]
name = "transit_rust"
version = "0.1.0"
edition = "2021"
publish = false

[dependencies]
anyhow = "1"
chrono = "0.4"
crossterm = "*"
reqwest = { version = "*", default-features = false }
superconsole = "0.2"
tokio = { version = "1", features = ["macros", "rt-multi-thread"] }
