[package]
name = "word_counter"
version = "0.1.0"
edition = "2021"
publish = false

[dependencies]
anyhow = "*"
async-trait = "*"
clap = { version = "*", features = ["derive"] }
colored = "*"
ctrlc = "*"
deadpool-redis = "*"
futures = "*"
indicatif = "*"
lazy_static = "*"
moka = { version = "*", features = ["future"] }
once_cell = "*"
prometheus = "*"
prost = "*"
rand = "*"
serde = { version = "*", features = ["derive"] }
serde_json = "*"
tokio = { version = "*", features = ["full"] }
toml = "*"
tonic = "*"
tonic-health = "*"
tonic-prost = "*"
tracing = "*"
tracing-appender = "*"
tracing-subscriber = "*"
warp = { version = "0.4", features = ["server"] }
