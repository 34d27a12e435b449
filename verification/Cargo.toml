[package]
name = "netlink_ddns"
version = "0.1.0"
edition = "2021"
publish = false

[dependencies]
anyhow = "*"
futures = "*"
futures-rustls = { version = "*", default-features = false, features = ["ring", "tls12"] }
http-body-util = "*"
hyper = { version = "*", features = ["client", "http1"] }
libcorn = "*"
netlink-sys = { version = "*", features = ["smol_socket"] }
pico-args = "*"
rtnetlink = { version = "*", default-features = false, features = ["smol_socket"] }
serde = { version = "*", features = ["derive"] }
serde_json = "*"
smol = "*"
smol-hyper = "*"
tracing = "*"
tracing-log = "*"
tracing-subscriber = { version = "*", features = ["env-filter"] }
webpki-roots = "*"
