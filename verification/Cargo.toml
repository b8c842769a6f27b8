[package]
name = "vex"
version = "0.1.0"
edition = "2021"
publish = false

[dependencies]
clap = { version = "4", features = ["derive"] }
quiche = "*"
rand = "0.8"
tokio = { version = "1", features = ["rt-multi-thread", "macros", "net", "time"] }
