[package]
name = "cli_core"
version = "0.1.0"
edition = "2021"
publish = false

[dependencies]
chrono = "*"
colored = "*"
lazy_static = "*"
once_cell = "*"
rpassword = "*"
serde = { version = "*", features = ["derive"] }
thiserror = "*"
toml = "*"
