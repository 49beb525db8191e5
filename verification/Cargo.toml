[package]
name = "paintplayground"
version = "0.1.0"
edition = "2021"
publish = false

[dependencies]
zstd = "*"
lz4_flex = "*"
png = "*"
tokio = { version = "*", features = ["full"] }
axum = { version = "*", features = ["ws"] }
futures = "*"
serde = { version = "*", features = ["derive"] }
