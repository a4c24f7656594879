[package]
name = "salai"
version = "0.1.0"
edition = "2021"
publish = false

[dependencies]
abaco = "=0.22.4"
ai-hwaccel = "=0.23.3"
anyhow = "=1.0.104"
bhava = "=2.0.0"
dhvani = "=1.1.0"
egui = "=0.31.1"
hisab = "=1.4.0"
kiran = "=1.0.0"
muharrir = "=0.23.5"
ranga = "=1.0.0"
serde = { version = "=1.0.229", features = ["derive"] }
serde_json = "=1.0.154"
soorat = "=1.0.0"
toml = "=1.1.8"
tracing = "=0.1.44"
tracing-subscriber = { version = "=0.3.23", features = ["env-filter"] }
