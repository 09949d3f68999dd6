[package]
name = "scanbro"
version = "0.1.0"
edition = "2021"
publish = false

[dependencies]
bytes = "1"
chrono = { version = "0.4", default-features = false, features = ["clock"] }
dirs = "6"
futures-util = "0.3"
http = "1"
if-addrs = "0.13"
image = { version = "0.25", default-features = false, features = ["jpeg", "png", "pnm", "tiff"] }
mdns-sd = "0.13"
multer = "3"
parking_lot = "0.12"
pdf-writer = "0.12"
quick-xml = "0.37"
reqwest = { version = "0.12", default-features = false, features = ["stream"] }
rfd = { version = "0.15", default-features = false, features = ["xdg-portal", "tokio"] }
thiserror = "2"
tokio = { version = "1", features = ["full"] }
tracing = "0.1"
tracing-subscriber = { version = "0.3", features = ["env-filter"] }
