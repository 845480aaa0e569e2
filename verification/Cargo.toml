[package]
name = "binary_options_tools"
version = "0.1.0"
edition = "2021"
publish = false

[dependencies]
serde = { version = "=1.0.229", features = ["derive"] }
serde_json = "=1.0.154"
regex = "=1.13.1"
uuid = { version = "=1.29.0", features = ["v4"] }
php_serde = "=0.6.0"
rust_decimal = "=1.43.0"
ryu = "=1.0.23"
tokio = { version = "=1.54.1", features = ["sync", "time", "rt", "macros"] }
rand = "=0.9.5"
url = "=2.5.8"
proc-macro2 = "=1.0.107"
quote = "=1.0.47"
syn = { version = "=2.0.119", features = ["full"] }
