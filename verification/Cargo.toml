[package]
name = "awsv4_http"
version = "0.1.0"
edition = "2021"
publish = false

[dependencies]
sha2 = "=0.10.9"
hmac = "=0.12.1"
hex = "=0.4.3"
httparse = "=1.10.1"
http = "=1.5.0"
anyhow = "=1.0.104"
tokio = { version = "=1.54.1", features = ["full"] }
tokio-native-tls = "=0.3.1"
hyper = { version = "=1.12.0", features = ["server", "client", "http1"] }
http-body-util = "=0.1.5"
smol = "=2.0.2"
smol-hyper = "=0.1.1"
ctrlc = { version = "=3.5.2", features = ["termination"] }
async-native-tls = "=0.5.0"

[dev-dependencies]
chrono = "=0.4.45"
