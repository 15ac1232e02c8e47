[package]
name = "ollama_chat"
version = "0.1.0"
edition = "2021"
publish = false

[dependencies]
dotenvy = "0.15"
ollama-rs = "0.1"
slint = { version = "1", default-features = false, features = ["std", "compat-1-2"] }
tokio = { version = "1", features = ["rt", "rt-multi-thread", "sync"] }
