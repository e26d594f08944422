[package]
name = "rik"
version = "0.1.0"
edition = "2021"
publish = false

[dependencies]
rand = "=0.8.8"
names = { version = "=0.14.0", default-features = false }
chrono = "=0.4.45"
serde = { version = "=1.0.229", features = ["derive"] }
serde_json = "=1.0.154"
tokio = { version = "=1.54.1", features = ["rt-multi-thread", "macros", "sync", "time", "process", "net"] }
tokio-stream = "=0.1.19"
tonic = "=0.14.6"
tonic-prost = "0.14"
prost = "0.14"
toml = "=1.1.8"
log = "=0.4.34"
env_logger = "=0.11.11"
rusqlite = { version = "=0.41.0", features = ["bundled"] }
tiny_http = "=0.12.0"
route-recognizer = "=0.3.1"
dotenv = "=0.15.0"
colored = "=3.1.1"
gethostname = "=1.1.0"
sysinfo = "=0.39.6"
futures-util = "=0.3.34"
