[package]
name = "afterburn_kubevirt"
version = "0.1.0"
edition = "2021"
publish = false

[dependencies]
anyhow = "1"
ipnetwork = "*"
openssh-keys = "*"
pnet_base = "*"
serde = { version = "1", features = ["derive"] }
serde_json = "1"
serde_yaml = "0.9"
slog = "2"
slog-scope = "4"
tempfile = "3"
