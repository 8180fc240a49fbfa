[package]
name = "waifu_bot"
version = "0.1.0"
edition = "2021"
publish = false

[dependencies]
base64 = "=0.21.7"
chrono = { version = "=0.4.45", features = ["serde"] }
dotenv = "=0.15.0"
huggingface_inference_rs = "*"
log = "=0.4.34"
minicaldav = "=0.8.0"
openweathermap_client = "*"
pretty_env_logger = "=0.5.0"
rand = "=0.8.8"
regex = "=1.13.1"
reqwest = { version = "=0.11.27", features = ["json", "multipart"] }
rust-ini = "=0.21.3"
rustemon = "*"
serde = { version = "=1.0.229", features = ["derive"] }
serde_json = "=1.0.154"
takecell = "=0.1.1"
teloxide = "=0.12.2"
tokio = { version = "=1.54.1", features = ["rt-multi-thread", "macros", "fs", "io-util"] }
ureq = "=2.12.1"
url = "=2.5.8"
