[package]
name = "gemini_server"
version = "0.1.0"
edition = "2021"
publish = false

[dependencies]
regex = "1"
url = "2"
percent-encoding = "2"
mime_guess = "2"
async-std = "1"
async-tls = "0.11"
rustls = "0.19"
futures = "0.3"
log = "0.4"
simple_logger = "1"
structopt = "0.3"
serde = { version = "1", features = ["derive"] }
serde_json = "1"
serde_regex = "1"
