[package]
name = "rgis"
version = "0.1.0"
edition = "2021"
publish = false

[dependencies]
async-channel = "*"
bytes = "*"
futures-util = "*"
geo = "*"
geo-types = "*"
geojson = "*"
log = "*"
reqwest = { version = "*", default-features = false, features = ["stream"] }
serde_json = "*"
thiserror = "*"
tokio = { version = "*", features = ["rt-multi-thread"] }
