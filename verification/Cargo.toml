[package]
name = "llm-cli-llama"
version = "0.1.0"
edition = "2021"
publish = false

[dependencies]
anyhow = "=1.0.104"
clap = { version = "=4.6.7", default-features = false, features = ["std", "derive", "help", "usage", "error-context"] }
dialoguer = { version = "=0.12.0", default-features = false }
dirs = "=7.0.0"
hf-hub = { version = "=1.0.0", features = ["blocking"] }
llama-cpp-2 = "=0.1.160"
rustyline = { version = "=19.0.0", default-features = false }
scraper = { version = "=0.29.0", default-features = false }
serde = { version = "=1.0.229", features = ["derive"] }
serde_json = "=1.0.154"
ureq = "=2.12.1"
