[package]
name = "nsqueue"
version = "0.1.0"
edition = "2021"
publish = false

[dependencies]
bytes = "0.4"
byteorder = "1"
futures = "0.1"
hostname = "0.1"
log = "0.3"
serde = "1"
serde_derive = "1"
serde_json = "1"
tokio-core = "0.1"
tokio-io = "0.1"
tokio-proto = "0.1"
tokio-service = "0.1"
