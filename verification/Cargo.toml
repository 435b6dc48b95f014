[package]
name = "nimbus"
version = "0.1.0"
edition = "2021"
publish = false

[dependencies]
rand = "=0.8.8"
anyhow = "=1.0.104"
cloudflare = { version = "=0.14.0", features = ["blocking"] }
dialoguer = "=0.12.0"
prettytable-rs = "=0.10.0"
serde = "=1.0.229"
serde_json = "=1.0.151"
structopt = "=0.3.26"
