[package]
name = "entangle"
version = "0.1.0"
edition = "2021"
publish = false

[dependencies]
clap = { version = "=4.6.7", features = ["derive"] }
dialoguer = "=0.12.0"
dirs = "=7.0.0"
gix = { version = "=0.90.0", default-features = false, features = ["sha1"] }
indicatif = "=0.18.6"
owo-colors = "=4.4.0"
serde = { version = "=1.0.229", features = ["derive"] }
serde_json = { version = "=1.0.154", features = ["preserve_order"] }
tempfile = "=3.27.0"
