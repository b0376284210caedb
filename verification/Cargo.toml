[package]
name = "grill-mcp"
version = "0.1.0"
edition = "2021"
publish = false

[dependencies]
anyhow = "=1.0.104"
cpal = "=0.18.2"
rmcp = { version = "=3.8.0", features = ["server", "transport-io", "macros"] }
rodio = "=0.23.0"
schemars = "=1.2.3"
serde = { version = "=1.0.229", features = ["derive"] }
tokio = { version = "=1.54.1", features = ["full"] }
transcribe-rs = { version = "=0.3.12", features = ["onnx"] }
