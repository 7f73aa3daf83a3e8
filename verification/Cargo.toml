[package]
name = "krnl"
version = "0.1.0"
edition = "2021"
publish = false

[dependencies]
rspirv = "0.11"
bytemuck = "1"
bincode = "1.3"
serde = { version = "1", features = ["derive"] }
anyhow = "1"
thiserror = "1"
