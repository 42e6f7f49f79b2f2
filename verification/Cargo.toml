[package]
name = "hkanno"
version = "0.1.0"
edition = "2021"
publish = false

[dependencies]
winnow = "0.7"
rayon = "1"
snafu = "0.8"
serde = { version = "1", features = ["derive"] }
tokio = { version = "1", features = ["fs", "rt-multi-thread", "macros"] }
tracing = "0.1"
tracing-subscriber = "0.3"
chrono = "0.4"
once_cell = "1"
