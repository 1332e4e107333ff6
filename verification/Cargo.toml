[package]
name = "connectcare"
version = "0.1.0"
edition = "2021"
publish = false

[dependencies]
serde = { version = "=1.0.229", features = ["derive"] }
serde_json = "=1.0.151"
handlebars = "=6.4.4"
cel-interpreter = "=0.10.0"
cel-parser = "=0.10.1"
hex = "=0.4.3"
sha2 = "=0.11.0"
hmac = "=0.13.0"
subtle = "=2.6.1"
axum = "=0.8.9"
tokio = { version = "=1.53.2", features = ["macros", "rt-multi-thread", "sync", "net"] }
mongodb = "=3.9.1"
