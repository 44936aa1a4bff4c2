[package]
name = "minidsp_devtools"
version = "0.1.0"
edition = "2021"
publish = false

[dependencies]
anyhow = "=1.0.104"
bimap = "=0.6.3"
bytes = "=1.9.0"
clap = { version = "=4.6.7", features = ["derive"] }
env_logger = "=0.11.11"
futures = "=0.3.34"
minidsp = { version = "=0.1.4", default-features = false, features = ["devices"] }
termcolor = "=1.4.1"
tokio = { version = "=1.54.1", features = ["fs", "io-util", "io-std", "macros", "rt-multi-thread"] }
tokio-util = { version = "=0.7.20", features = ["codec", "io"] }
