[package]
name = "zmk_battery_center"
version = "0.1.0"
edition = "2021"
publish = false

[dependencies]
ansi_term = "=0.12.1"
bluest = "0.6"
futures-lite = "2"
log = "=0.4.34"
serde = { version = "1", features = ["derive"] }
serde_json = "1"
tokio = { version = "1", features = ["macros", "rt", "sync", "time"] }
uuid = "1"
