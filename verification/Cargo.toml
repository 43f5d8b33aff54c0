[package]
name = "trace_metrics"
version = "0.1.0"
edition = "2021"
publish = false

[dependencies]
anyhow = "=1.0.104"
chrono = "=0.4.45"
clickhouse = { version = "=0.15.2", features = ["uuid"] }
serde = { version = "=1.0.229", features = ["derive"] }
tokio = { version = "=1.53.2", features = ["macros", "rt-multi-thread"] }
uuid = { version = "=1.27.0", features = ["v4", "serde"] }
