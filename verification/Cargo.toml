[package]
name = "wyattwtf"
version = "0.1.0"
edition = "2021"
publish = false

[dependencies]
axum = "=0.8.9"
chrono = { version = "=0.4.45", features = ["serde"] }
clap = { version = "=4.6.7", features = ["derive"] }
leptos = { version = "=0.8.23", features = ["ssr"] }
leptos_axum = "=0.8.10"
leptos_meta = "=0.8.7"
leptos_router = "=0.8.17"
reqwest = { version = "=0.12.28", default-features = false, features = ["json", "rustls-tls"] }
roxmltree = "=0.21.2"
scraper = "=0.29.0"
serde = { version = "=1.0.229", features = ["derive"] }
serde_json = "=1.0.154"
thiserror = "=2.0.21"
tokio = { version = "=1.54.1", features = ["full"] }
url = "=2.5.8"

[dev-dependencies]
http = "=1.5.0"
