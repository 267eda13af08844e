[package]
name = "waverider"
version = "0.1.0"
edition = "2021"
publish = false

[dependencies]
bs58 = "=0.4.0"
postgrest = "=1.6.0"
serde = { version = "=1.0.229", features = ["derive"] }
serde_json = { version = "=1.0.154", features = ["preserve_order"] }
solana-geyser-plugin-interface = "=1.14.24"
tokio = { version = "=1.54.1", features = ["rt-multi-thread"] }

[dev-dependencies]
anchor-lang = "=0.26.0"
