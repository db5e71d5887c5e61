[package]
name = "ens_rest"
version = "0.1.0"
edition = "2021"
publish = false

[dependencies]
tiny-keccak = { version = "*", features = ["keccak"] }
ethereum-types = "*"
hex = "*"
serde = { version = "*", features = ["derive"] }
serde_json = "*"
thiserror = "*"
ureq = "*"
anyhow = "*"
structopt = "*"
dotenv = "*"
tracing = "*"
tracing-subscriber = { version = "*", features = ["env-filter"] }
tide = "*"
async-std = { version = "*", features = ["attributes"] }
