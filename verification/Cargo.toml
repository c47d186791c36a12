[package]
name = "hyperlane_cli"
version = "0.1.0"
edition = "2021"
publish = false

[dependencies]
clap = { version = "4", features = ["derive"] }
ethers = { version = "2", default-features = false }
ethers-signers = "2"
eyre = "0.6"
rand = "0.8"
serde_json = "1"
thiserror = "1"
tokio = { version = "1", features = ["rt", "macros"] }
