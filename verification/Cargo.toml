[package]
name = "cloudmqtt"
version = "0.5.0"
edition = "2021"
publish = false

[dependencies]
mqtt-format = "*"
tokio = { version = "1", features = ["full"] }
tokio-util = { version = "0.7", features = ["codec", "compat"] }
futures = "0.3"
futures-timer = "3"
yoke = { version = "0.7", features = ["derive"] }
winnow = "*"
nom = "7"
dashmap = "5"
arc-swap = "1"
thiserror = "1"
tracing = "0.1"
tracing-subscriber = { version = "0.3", features = ["env-filter"] }
clap = { version = "4", features = ["derive"] }
miette = "5"
ansi_term = "0.12"
textwrap = "0.16"
nix = "0.26"
async-trait = "0.1"
typed-builder = "*"
stable_deref_trait = "1"
paste = "1"
