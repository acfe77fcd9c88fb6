[package]
name = "mem0_rust"
version = "1.0.0"
edition = "2021"
publish = false

[dependencies]
serde = { version = "=1.0.229", features = ["derive"] }
serde_json = "=1.0.154"
uuid = { version = "=1.29.0", features = ["v4"] }
clap = { version = "=4.6.7", features = ["derive"] }
dirs = "=7.0.0"
tiny_http = "=0.12.0"
tokio = { version = "=1.54.1", features = ["macros", "rt-multi-thread"] }
glowrs = "=0.4.1"
# Not called by this crate: glowrs 0.4.1 (through candle-core 0.4.1) only compiles
# against a half release whose "rand_distr" feature still uses rand 0.8.
half = "=2.4.1"
