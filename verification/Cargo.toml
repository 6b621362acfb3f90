[package]
name = "revproxy"
version = "0.1.0"
edition = "2021"
publish = false

[dependencies]
async-once-cell = "0.5"
async-recursion = "1"
async-session = "3"
async-trait = "0.1"
chrono = "0.4"
config = { version = "0.14", default-features = false, features = ["yaml"] }
cookie = "0.18"
form_urlencoded = "1"
futures = "0.3"
http-body-util = "0.1"
hyper = { version = "1", features = ["full"] }
hyper-util = { version = "0.1", features = ["tokio"] }
ktls = "6"
mime_guess = "2"
openidconnect = { version = "4", default-features = false }
rustls-pemfile = "2"
rustls-platform-verifier = "0.5"
serde = "1"
serde_derive = "1"
tokio = { version = "1", features = ["full"] }
tokio-rustls = "0.26"
tokio-util = { version = "0.7", features = ["io"] }
wildmatch = "2"
