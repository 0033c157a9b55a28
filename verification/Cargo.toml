[package]
name = "listenmoe"
version = "0.1.0"
edition = "2021"
publish = false

[dependencies]
reqwest = { version = "=0.12.28", default-features = false, features = ["blocking", "rustls-tls"] }
rodio = "=0.22.2"
rustfft = "=6.4.1"
symphonia = "=0.5.5"
tungstenite = { version = "=0.30.0", features = ["rustls-tls-webpki-roots"] }
