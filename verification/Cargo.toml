[package]
name = "salvo_worker"
version = "0.1.0"
edition = "2021"
publish = false

[dependencies]
base64 = "0.22"
bytes = "1"
ciborium = "0.2"
form_urlencoded = "1"
futures = "0.3"
getrandom = "0.2"
http = "1"
mime = "0.3"
multer = "3"
multimap = "0.10"
rand = "0.9"
reqwest = { version = "0.12", default-features = false, features = ["json"] }
serde = { version = "1", features = ["derive"] }
serde_json = "1"
tempfile = "3"
thiserror = "2"
time = "0.3"
tokio = { version = "1", features = ["fs", "io-util", "rt"] }
worker = "*"
