[package]
name = "tonic_lnd"
version = "0.1.0"
edition = "2021"
publish = false

[dependencies]
rustls-pemfile = "=0.2.1"
tonic = { version = "=0.5.2", features = ["tls"] }
tokio = { version = "=1.53.2", features = ["fs"] }
rustls = { version = "=0.19.1", features = ["dangerous_configuration"] }
webpki = "=0.21.4"

[dev-dependencies]
hex = "=0.4.3"
