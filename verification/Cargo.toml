[package]
name = "schwab_bot"
version = "0.1.0"
edition = "2021"
publish = false

[dependencies]
async-trait = "=0.1.92"
chrono = "=0.4.45"
dirs = "=6.0.0"
dotenv = "=0.15.0"
ibapi = { version = "=2.12.0", default-features = false, features = ["async"] }
log = "=0.4.35"
reqwest = { version = "=0.12.28", default-features = false, features = ["rustls-tls"] }
schwab_api = "=0.0.4"
serde = { version = "=1.0.229", features = ["derive"] }
serde_json = "=1.0.154"
# Not used directly: teloxide depends on it, and its next release needs a newer compiler.
takecell = "=0.1.1"
teloxide = { version = "=0.17.0", default-features = false, features = ["rustls", "ctrlc_handler"] }
tokio = { version = "=1.54.1", features = ["full"] }
