[package]
name = "xpic"
version = "0.1.0"
edition = "2021"
publish = false

[dependencies]
ahash = "0.8"
anyhow = "1"
chrono = { version = "0.4", default-features = false, features = ["std", "clock"] }
clap = { version = "4", features = ["derive"] }
comfy-table = "7"
confy = "*"
dirs = "*"
futures = "0.3"
hex = "0.4"
icu_locale = "2"
image = { version = "0.25", default-features = false, features = ["jpeg", "png"] }
regex = "1"
reqwest = { version = "0.12", features = ["json", "stream"] }
serde = { version = "1", features = ["derive"] }
serde_json = "1"
serde_urlencoded = "0.7"
sha2 = "0.10"
sys-locale = "0.3"
tokio = { version = "1", features = ["rt-multi-thread", "macros", "fs", "io-util"] }
url = "2"
