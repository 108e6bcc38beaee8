[package]
name = "uniqx"
version = "0.1.0"
edition = "2021"
publish = false

[dependencies]
regex = "=1.13.1"
httparse = "=1.10.1"
anyhow = "=1.0.104"
async-trait = "=0.1.92"
bincode = "1"
bytes = "=1.12.1"
clap = { version = "=4.6.7", features = ["derive", "env"] }
ctrlc = "=3.5.2"
dashmap = "=5.5.3"
futures-util = { version = "=0.3.34", features = ["sink"] }
serde = { version = "=1.0.229", features = ["derive"] }
serde_json = "=1.0.154"
socket2 = { version = "=0.5.10", features = ["all"] }
tokio = { version = "=1.54.1", features = ["full"] }
tokio-util = { version = "=0.7.20", features = ["codec"] }
tokio-stream = { version = "=0.1.19", features = ["sync"] }
tokio-rustls = { version = "=0.24.1", features = ["dangerous_configuration"] }
rustls-pemfile = "=1.0.4"
webpki-roots = "=0.25.4"
actix-web = "=4.18.1"
tracing = "=0.1.44"
tracing-subscriber = { version = "=0.3.23", features = ["env-filter"] }
uuid = { version = "=1.29.0", features = ["v4"] }
