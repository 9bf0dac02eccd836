[package]
name = "pricewatch"
version = "0.1.0"
edition = "2021"
publish = false

[dependencies]
kuchiki = "0.8"
tendril = "0.4"
hyper = { version = "0.14", features = ["client", "http1", "tcp"] }
hyper-tls = "0.5"
native-tls = "0.2"
tokio = { version = "1", features = ["rt", "net", "time"] }
futures = "0.3"
argparse = "0.2"
toml = "0.5"
serde = "1"
serde_derive = "1"
