[package]
name = "volo_client"
version = "0.1.0"
edition = "2021"
publish = false

[dependencies]
futures = "=0.3.34"
fxhash = "=0.2.1"
http = "=1.5.0"
http-body = "=1.1.0"
motore = "=0.4.1"
parking_lot = "=0.12.5"
pilota = "=0.13.1"
tokio = { version = "=1.54.1", features = ["rt", "sync"] }
tracing = "=0.1.44"
volo = "=0.12.4"
