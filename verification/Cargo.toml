[package]
name = "crm_core"
version = "0.1.0"
edition = "2021"
publish = false

[dependencies]
chrono = "=0.4.45"
once_cell = "=1.21.4"
postgres = "=0.19.14"
serde_json = "=1.0.151"
tokio = { version = "=1.53.2", features = ["rt-multi-thread", "macros"] }
tokio-postgres = { version = "=0.7.18", features = ["with-chrono-0_4"] }
