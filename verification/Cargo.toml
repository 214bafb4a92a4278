[package]
name = "beepkg"
version = "0.1.0"
edition = "2021"
publish = false

[dependencies]
aes-gcm = "*"
argon2 = "*"
base64 = "*"
chrono = "*"
clap = { version = "*", features = ["derive"] }
dotenv = "*"
env_logger = "*"
quick-xml = { version = "*", features = ["serialize"] }
rand = "0.8"
reqwest = { version = "*", default-features = false }
rusty-s3 = "*"
semver = "1"
serde = { version = "*", features = ["derive"] }
serde_json = "*"
sha1 = "*"
tempfile = "*"
tokio = { version = "*", features = ["macros", "rt-multi-thread"] }
toml = "*"
url = "*"
walkdir = "*"
zip = { version = "*", default-features = false, features = ["deflate"] }
