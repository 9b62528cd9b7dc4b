[package]
name = "chainlink_ocr2"
version = "0.1.0"
edition = "2021"
publish = false

[dependencies]
solana-program = "=1.18.26"
bytemuck = { version = "=1.25.2", features = ["derive"] }
bs58 = "=0.4.0"
base64 = "=0.21.7"
serde = { version = "=1.0.229", features = ["derive"] }
serde_json = "=1.0.154"

[dev-dependencies]
libsecp256k1 = "=0.6.0"
