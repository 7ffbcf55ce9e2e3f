[package]
name = "coinbot"
version = "0.1.0"
edition = "2021"
rust-version = "1.95"
publish = false

[dependencies]
teloxide = "*"
reqwest = "*"
tokio = { version = "*", features = ["full"] }
dptree = "*"
dotenv = "*"
log = "*"
pretty_env_logger = "*"
# teloxide pulls takecell in, and takecell 0.1.2 asks for a newer rustc than
# the rust-version above; 0.1.1 satisfies teloxide's range, so pin it.
takecell = "=0.1.1"
