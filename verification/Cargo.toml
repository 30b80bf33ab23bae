[package]
name = "asset_tracker"
version = "0.1.0"
edition = "2021"
publish = false

[dependencies]
heapless = "=0.9.3"
hash32 = "=0.3.1"
trouble-host = { version = "=0.8.0", features = ["scan", "peripheral"] }
bt-hci = "=0.10.1"
embassy-sync = "=0.8.0"
embassy-time = { version = "=0.5.1", features = ["std"] }
postcard = { version = "=1.1.3", features = ["use-std"] }
serde = { version = "1", default-features = false, features = ["derive"] }
serde_json = "=1.0.154"
uuid = { version = "=1.29.0", default-features = false, features = ["serde"] }
embedded-io-async = "=0.7.0"
coap-handler-implementations = "=0.6.4"
coap-message-utils = "=0.3.12"
coap-handler = "=0.2.1"
