[package]
name = "rsiprtp"
version = "0.3.0"
edition = "2021"
publish = false

[dependencies]
audio-codec-algorithms = "*"
bytes = "1"
clap = { version = "4", features = ["derive"] }
ezk-g722 = "*"
hmac = "0.12"
rand = "0.8"
reqwest = { version = "0.12", default-features = false, features = ["json"] }
rubato = "0.15"
serde = { version = "1", features = ["derive"] }
sha1 = "0.10"
thiserror = "1"
tokio = { version = "1", features = ["net", "time", "rt-multi-thread", "macros", "process", "sync", "io-util", "signal"] }
toml = "0.8"
tracing = "0.1"
tracing-subscriber = { version = "0.3", features = ["env-filter"] }
uuid = { version = "1", features = ["v4"] }
vosk = "0.3"
