[package]
name = "torii"
version = "0.1.0"
edition = "2021"
publish = false

[dependencies]
anyhow = "=1.0.104"
async-trait = "=0.1.92"
camino = "=1.2.6"
ctrlc = "=3.5.2"
dojo-types = "=1.7.0"
futures = "=0.3.34"
hashlink = "=0.10.0"
indicatif = "0.18"
metrics = "=0.24.6"
num_cpus = "=1.17.0"
reqwest = { version = "=0.12.28", default-features = false, features = ["stream"] }
starknet = "=0.17.0"
starknet-crypto = "=0.8.1"
tempfile = "=3.27.0"
terminal_size = "=0.4.4"
tokio = { version = "=1.54.1", features = ["fs", "io-util", "macros", "rt-multi-thread", "signal", "sync"] }
tokio-stream = "=0.1.19"
toml = "=0.8.23"
tracing = "=0.1.44"
tracing-indicatif = "=0.3.14"
