[package]
name = "posebridge"
version = "0.6.0"
edition = "2021"
publish = false

[dependencies]
btleplug = "*"
clap = { version = "4", features = ["derive"] }
ctrlc = "3"
futures-util = "0.3"
rosc = "*"
serde = { version = "1", features = ["derive"] }
serde_json = "1"
thiserror = "2"
tokio = { version = "1", features = ["rt-multi-thread", "time", "sync", "io-util", "macros"] }
tokio-serial = { version = "5", default-features = false }
uuid = { version = "1", features = ["v4"] }
