[package]
name = "rustls-libcrux-provider"
version = "0.1.0"
edition = "2021"
publish = false

[dependencies]
libcrux = "=0.0.6"
libcrux-traits = "=0.0.9"
rand_core = { version = "=0.9.5", features = ["os_rng"] }
rustls = { version = "=0.23.46", default-features = false, features = ["std"] }
rustls-webpki = { version = "=0.103.16", default-features = false, features = ["std", "aws-lc-rs"] }

[dev-dependencies]
der = { version = "=0.8.3", features = ["alloc"] }
rand = "=0.10.3"
