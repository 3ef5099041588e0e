[package]
name = "ztui"
version = "0.1.0"
edition = "2021"
publish = false

[dependencies]
anyhow = "=1.0.104"
byte-unit = "=4.0.19"
crossterm = "=0.25.0"
directories = "=4.0.1"
fancy-duration = "=0.9.2"
http = "=0.2.12"
nix = { version = "=0.26.4", features = ["signal"] }
reqwest = { version = "=0.11.27", features = ["json"] }
serde = { version = "=1.0.229", features = ["derive"] }
serde_json = "=1.0.151"
sys_metrics = "=0.2.7"
tempfile = "=3.27.0"
time = "=0.3.55"
tokio = { version = "=1.53.2", features = ["full"] }
tui = "=0.19.0"
