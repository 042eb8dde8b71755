[package]
name = "bitbygit"
version = "0.1.0"
edition = "2021"
publish = false

[dependencies]
sha2 = "0.10"
toml = "0.9"
serde = { version = "1", features = ["derive"] }
serde_json = "1"
fs2 = "0.4"
rustix = { version = "0.38", features = ["fs", "process"] }
