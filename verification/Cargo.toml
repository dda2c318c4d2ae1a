[package]
name = "nyx_space"
version = "0.1.0"
edition = "2021"
publish = false

[dependencies]
hifitime = "=3.9.0"
rayon = "=1.12.0"
serde = { version = "=1.0.229", features = ["derive"] }
snafu = "=0.7.5"
hyperdual = "=1.5.0"
nalgebra = "=0.35.0"
log = "=0.4.34"
anise = { version = "=0.10.6", default-features = false }
arrow = { version = "=60.0.0", default-features = false }
parquet = { version = "=60.0.0", default-features = false, features = ["arrow"] }
