[package]
name = "ech-tls-tunnel"
version = "0.4.0"
edition = "2021"
publish = false

[dependencies]
anyhow = "1"
arc-swap = "1"
base64 = "0.22"
boring = "4"
boring-sys = "4"
bytes = "1"
clap = { version = "4", features = ["derive"] }
foreign-types-shared = "0.3"
futures-util = "0.3"
http = "1"
http-body-util = "0.1"
hyper = { version = "1", features = ["server", "http1"] }
hyper-util = { version = "0.1", features = ["tokio"] }
instant-acme = { version = "0.8", default-features = false, features = ["ring", "hyper-rustls"] }
libc = "0.2"
pin-project-lite = "0.2"
rand = "0.9"
rcgen = "0.13"
sha2 = "0.10"
socket2 = "0.6"
tokio = { version = "1", features = ["full"] }
tokio-boring = "4"
tokio-tungstenite = "0.24"
tracing = "0.1"
tracing-subscriber = { version = "0.3", features = ["env-filter"] }
