[package]
name = "ai_stock"
version = "0.1.0"
edition = "2021"
publish = false

[dependencies]
rust_decimal = "1"
chrono = { version = "0.4", default-features = false, features = ["clock", "std"] }
serde = { version = "1", features = ["derive"] }
thiserror = "1"
tokio = { version = "1", features = ["sync", "rt", "macros", "time"] }
async-trait = "0.1"
futures = "0.3"
tracing = "0.1"
