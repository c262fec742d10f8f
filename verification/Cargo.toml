[package]
name = "ram_fileserver"
version = "0.1.0"
edition = "2021"
publish = false

[dependencies]
alphanumeric-sort = "=1.5.8"
anyhow = "=1.0.104"
bytes = "=1.12.1"
chardetng = "=1.0.0"
content_inspector = "=0.2.4"
futures-util = "=0.3.34"
headers = "=0.4.2"
hex = "=0.4.3"
http-body-util = "=0.1.5"
hyper = { version = "=1.12.0", features = ["http1", "server"] }
log = "=0.4.35"
mime_guess = "=2.0.5"
rustix = { version = "=1.1.6", features = ["fs", "process"] }
serde = { version = "=1.0.229", features = ["derive"] }
serde_json = "=1.0.154"
sha2 = "=0.10.9"
tokio = { version = "=1.54.1", features = ["fs", "io-util", "macros", "net", "rt-multi-thread", "sync", "time"] }
uuid = { version = "=1.29.0", features = ["v4"] }
zip = { version = "=9.2.2", default-features = false, features = ["deflate"] }
