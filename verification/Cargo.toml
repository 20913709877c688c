[package]
name = "qwen3_asr_wgpu"
version = "0.1.0"
edition = "2021"
publish = false

[dependencies]
anyhow = "1"
bytemuck = { version = "1", features = ["derive"] }
bytes = "1"
gemm = "*"
half = { version = "2", features = ["bytemuck"] }
hound = "3"
libm = "0.2"
pollster = "*"
rayon = "1"
reqwest = { version = "0.12", default-features = false, features = ["blocking", "rustls-tls"] }
safetensors = "*"
serde = { version = "1", features = ["derive"] }
serde_json = "1"
thiserror = "2"
wgpu = "*"
