[package]
name = "rmz"
version = "0.1.0"
edition = "2021"
publish = false

[dependencies]
anyhow = "1"
chrono = { version = "0.4", features = ["serde"] }
clap = { version = "4", features = ["derive"] }
clap_complete = "4"
colored = "*"
dialoguer = "*"
directories = "*"
duct = "*"
serde = { version = "1", features = ["derive"] }
serde_json = "1"
sha2 = "0.10"
thiserror = "*"
toml = "*"
uuid = { version = "1", features = ["v4", "serde"] }
which = "*"
