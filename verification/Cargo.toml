[package]
name = "ob_oraborus"
version = "0.1.0"
edition = "2021"
publish = false

[dependencies]
regex = "1"
url = "2"
sha2 = "0.10"
base64 = "0.22"
serde = { version = "1", features = ["derive"] }
serde_json = "1"
chrono = "0.4"
uuid = { version = "1", features = ["v4"] }
thiserror = "2"
csv = "1"
walkdir = "2"
which = "7"
zip = { version = "2", default-features = false, features = ["deflate"] }
quick-xml = "0.37"
rusqlite = { version = "0.32", features = ["bundled"] }
reqwest = { version = "0.12", default-features = false, features = ["json", "stream", "rustls-tls"] }
tokio = { version = "1", features = ["full"] }
tokio-util = "0.7"
futures-util = "0.3"
async-trait = "0.1"
parking_lot = "0.12"
keyring = { version = "3", default-features = false }
zeroize = "1"
