[package]
name = "minigun"
version = "0.1.0"
edition = "2021"
publish = false

[dependencies]
async-std = { version = "=1.13.2", features = ["attributes"] }
femme = "=2.2.1"
futures = "=0.3.34"
http-client = { version = "=6.5.3", features = ["h1_client", "curl_client", "hyper_client"] }
indicatif = "0.17"
itertools = "=0.10.5"
log = "=0.4.35"
prettytable-rs = "=0.8.0"
ron = "=0.6.6"
serde = { version = "=1.0.229", features = ["derive"] }
serde_json = "=1.0.154"
structopt = "=0.3.26"
surf = "=2.3.2"
