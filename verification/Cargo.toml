[package]
name = "mcs"
version = "0.1.0"
edition = "2021"
publish = false

[dependencies]
uuid = { version = "=1.29.0", features = ["v4"] }
tokio = { version = "=1.54.1", features = ["full"] }
tonic = { version = "=0.8.3", features = ["tls"] }
prost = "=0.11.9"
warp = "=0.3.7"
serde = { version = "=1.0.229", features = ["derive"] }
sqlite = "=0.37.4"
config = { version = "=0.11.0", default-features = false, features = ["toml"] }
prometheus = { version = "=0.13.4", default-features = false }
lazy_static = "=1.5.1"
tracing = "=0.1.44"
tracing-subscriber = { version = "=0.3.23", features = ["json", "fmt"] }
tracing-appender = "=0.2.5"
stubborn-io = "=0.3.6"
httpclient = "=0.26.1"
async-stream = "=0.3.6"
tokio-stream = "=0.1.19"
tokio-util = "=0.7.20"
utoipa = "=3.5.0"
utoipa-swagger-ui = "=3.1.5"

[dev-dependencies]
chrono = "=0.4.45"
