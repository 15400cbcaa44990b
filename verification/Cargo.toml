[package]
name = "port_scanner"
version = "0.1.0"
edition = "2021"
publish = false

[dependencies]
tokio = { version = "*", features = ["net", "time", "rt-multi-thread", "macros"] }
futures = "*"
indicatif = "*"
