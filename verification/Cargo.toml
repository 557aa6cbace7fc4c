[package]
name = "audio_server"
version = "0.1.0"
edition = "2021"
publish = false

[dependencies]
axum = "0.6"
hyper = "0.14"
tokio = { version = "1", features = ["macros", "rt-multi-thread"] }
serde = { version = "1", features = ["derive"] }
serde_json = "1"
symphonia = "0.5"
hound = "3.5"
actix-web = "4"
actix-files = "0.6"
