[package]
name = "mfinance"
version = "0.1.0"
edition = "2021"
publish = false

[dependencies]
chrono = "*"
clap = { version = "*", features = ["derive"] }
config = { version = "*", default-features = false, features = ["toml"] }
csv = "*"
main_error = "*"
ratatui = "*"
rust_decimal = "*"
serde = { version = "*", features = ["derive"] }
thiserror = "*"
tui-input = { version = "*", default-features = false }
