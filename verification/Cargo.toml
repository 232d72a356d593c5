[package]
name = "voicebox_asr"
version = "0.1.0"
edition = "2021"
publish = false

[dependencies]
axum = "*"
clap = { version = "*", features = ["derive", "env"] }
hound = "*"
serde = { version = "*", features = ["derive"] }
serde_json = "*"
sherpa-onnx = "*"
tokio = { version = "1", features = ["macros", "rt-multi-thread", "net", "signal"] }
tower-http = { version = "*", features = ["cors", "trace"] }
tracing = "*"
tracing-subscriber = { version = "*", features = ["env-filter", "fmt"] }
