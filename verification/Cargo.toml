[package]
name = "rowifi"
version = "0.1.0"
edition = "2021"
publish = false

[dependencies]
regex = "1"
twilight-mention = "*"
twilight-model = "*"
twilight-http = "*"
twilight-validate = "*"
twilight-util = { version = "*", features = ["builder"] }
twilight-standby = "*"
serde = { version = "1", features = ["derive"] }
serde_json = "1"
serde_repr = "*"
serde_urlencoded = "*"
chrono = { version = "*", features = ["serde"] }
time = "*"
tokio = { version = "1", features = ["macros", "rt"] }
tokio-postgres = { version = "*", features = ["with-chrono-0_4", "with-serde_json-1"] }
deadpool-postgres = "*"
axum = "*"
tower = "*"
tokio-stream = "*"
hyper = { version = "1", features = ["client", "http1"] }
hyper-util = { version = "*", features = ["client-legacy", "http1", "tokio"] }
hyper-rustls = "*"
http-body-util = "*"
bytes = "1"
tracing = "*"
