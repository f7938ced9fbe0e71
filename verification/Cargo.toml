[package]
name = "single_table"
version = "0.1.0"
edition = "2021"
publish = false

[dependencies]
async-mutex = "=1.4.1"
async-trait = "=0.1.92"
chrono = { version = "=0.4.45", features = ["serde"] }
clap = { version = "=4.6.7", features = ["derive", "env"] }
rusoto_core = { version = "=0.47.0", default-features = false, features = ["rustls"] }
rusoto_dynamodb = { version = "=0.47.0", default-features = false, features = ["rustls"] }
rusoto_sts = { version = "=0.47.0", default-features = false, features = ["rustls"] }
serde = { version = "=1.0.229", features = ["derive"] }
serde_dynamodb = "=0.9.0"
smol = "=2.0.2"
thiserror = "=2.0.21"
uuid = { version = "=1.29.0", features = ["v4"] }
