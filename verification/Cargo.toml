[package]
name = "slipway"
version = "0.1.0"
edition = "2021"
publish = false

[dependencies]
chrono = { version = "0.4", features = ["serde"] }
chrono-tz = { version = "0.10", features = ["serde"] }
croner = "2"
hmac = "0.12"
sha2 = "0.10"
semver = { version = "1", features = ["serde"] }
url = { version = "2", features = ["serde"] }
serde = { version = "1", features = ["derive"] }
serde_json = "1"
anyhow = "1"
thiserror = "2"
base64 = "0.22"
image = { version = "0.25", default-features = false, features = ["png", "jpeg", "bmp"] }
actix-web = { version = "4", default-features = false, features = ["macros"] }
actix-cors = "0.7"
tokio = { version = "1", features = ["rt-multi-thread", "macros", "fs"] }
clap = { version = "4", features = ["derive"] }
tracing = "0.1"
tracing-subscriber = "0.3"
nanoid = "0.4"
termion = "4"
iana-time-zone = "0.1"
sys-locale = "0.3"
indoc = "2"
walkdir = "2"
tar = "0.4"
rpassword = "7"
ctrlc = "3"
time = { version = "0.3", features = ["formatting", "parsing"] }
async-trait = "0.1"
