[package]
name = "werson"
version = "0.1.0"
edition = "2021"
publish = false

[dependencies]
actix = "*"
actix-web = "*"
actix-web-actors = "*"
awc = "*"
clap = "*"
futures-util = "*"
scopeguard = "*"
tokio = { version = "1", features = ["full"] }
tokio-tun = "*"
tracing = "*"
tracing-bunyan-formatter = "*"
tracing-subscriber = "*"
