[package]
name = "ruuvi_exporter"
version = "0.1.0"
edition = "2021"
publish = false

[dependencies]
ruuvi-sensor-protocol = "*"
zbus = { version = "4", default-features = false, features = ["tokio"] }
tokio = { version = "1", features = ["macros", "rt-multi-thread", "sync", "time"] }
tokio-stream = "0.1"
futures = "0.3"
tracing = "0.1"
tracing-subscriber = "0.3"
hyper = { version = "0.14", features = ["server", "http1", "tcp"] }
prometheus = "0.13"
lazy_static = "1"
anyhow = "1"
serde = { version = "1", features = ["derive"] }
fsipc = "*"
