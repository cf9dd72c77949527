[package]
name = "sfu"
version = "0.1.0"
edition = "2021"
publish = false

[dependencies]
webrtc = "=0.21.0"
rtc = "=0.21.0"
serde_json = "=1.0.151"
tokio = { version = "=1.53.2", features = ["rt-multi-thread", "macros", "time", "sync"] }
flume = "=0.12.0"
anyhow = "=1.0.104"
async-trait = "=0.1.92"
