[package]
name = "dsfb"
version = "0.1.0"
edition = "2021"
publish = false

[dependencies]
anyhow = "=1.0.104"
chrono = "=0.4.45"
clap = { version = "=4.6.7", features = ["derive"] }
const_soft_float = "=0.1.4"
csv = "=1.4.0"
nalgebra = "=0.35.0"
plotters = "=0.3.7"
pyo3 = { version = "=0.30.1", features = ["abi3-py39"] }
rand = "=0.8.8"
rand_chacha = "=0.3.1"
rand_distr = "=0.4.3"
rustc_apfloat = "=0.2.3"
serde = { version = "=1.0.229", features = ["derive"] }
serde_json = "=1.0.154"
serde_with = "*"
thiserror = "*"
toml = "=1.1.8"
