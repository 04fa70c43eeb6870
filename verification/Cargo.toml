[package]
name = "murmure"
version = "0.1.0"
edition = "2021"
publish = false

[dependencies]
anyhow = "1"
arboard = { version = "3", default-features = false }
async-trait = "0.1"
base64 = "0.22"
bzip2 = "0.4"
cpal = "0.15"
enigo = { version = "0.2", default-features = false, features = ["x11rb"] }
env_logger = { version = "0.11", default-features = false }
futures-util = { version = "0.3", default-features = false, features = ["std", "sink"] }
hound = "3.5"
log = "0.4"
regex = "1"
reqwest = { version = "0.12", default-features = false, features = ["json", "stream", "multipart"] }
serde = { version = "1", features = ["derive"] }
serde_json = "1"
tar = "0.4"
tokio = { version = "1", features = ["fs", "io-util", "net", "rt-multi-thread", "sync", "time"] }
tokio-tungstenite = "0.26"
unicode-segmentation = "1"
