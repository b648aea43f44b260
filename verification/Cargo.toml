[package]
name = "gravador"
version = "0.1.0"
edition = "2021"
publish = false

[dependencies]
anyhow = "=1.0.104"
chrono = "=0.4.45"
num_cpus = "=1.17.0"
dirs = "=7.0.0"
rusqlite = { version = "=0.41.1", features = ["bundled"] }
hound = "=3.5.1"
ringbuf = "=0.4.8"
cpal = "=0.18.2"
serde_json = "=1.0.154"
reqwest = { version = "=0.12.28", default-features = false, features = ["json", "blocking", "stream", "rustls-tls"] }
tokio = { version = "=1.54.1", features = ["rt-multi-thread", "fs", "io-util"] }
futures-util = "=0.3.34"
async-openai = { version = "=0.43.0", features = ["audio"] }
whisper-rs = "=0.16.0"
arboard = "=3.7.0"
