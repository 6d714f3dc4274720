[package]
name = "cloudflare_kv_proxy"
version = "0.1.0"
edition = "2021"
publish = false

[dependencies]
hashlink = "*"
coarsetime = "*"
serde_json = "*"
serde = "*"
thiserror = "*"
parking_lot = "*"
reqwest = { version = "*", default-features = false, features = ["json"] }
