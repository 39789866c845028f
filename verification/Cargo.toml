[package]
name = "solana_tools"
version = "0.1.0"
edition = "2021"
publish = false

[dependencies]
bs58 = "=0.5.1"
base64 = "=0.22.1"
uuid = { version = "=1.29.0", features = ["v4"] }
jiff = "=0.2.39"
clap = { version = "=4.6.7", features = ["derive"] }
colored = "=3.1.1"
simplelog = "=0.12.2"
terminal_hyperlink = "=0.1.0"
rand = "=0.9.5"
tokio = { version = "=1.54.1", features = ["macros", "rt-multi-thread"] }
