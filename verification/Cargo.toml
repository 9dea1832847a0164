[package]
name = "polyminis_server"
version = "0.1.0"
edition = "2021"
publish = false

[dependencies]
lru-cache = "=0.1.2"
rustc-serialize = "=0.3.25"
rustful = { version = "=0.9.0", default-features = false, features = ["rustc_json_body"] }
log = "=0.4.35"
env_logger = "=0.11.11"
