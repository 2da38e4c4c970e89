[package]
name = "genpolicy"
version = "0.1.0"
edition = "2021"
publish = false

[dependencies]
anyhow = "1"
async-trait = "0.1"
base64 = "0.21"
checked_command = "*"
clap = { version = "4", features = ["derive"] }
env_logger = "*"
flate2 = "1"
log = "0.4"
oci-distribution = "*"
oci-spec = "*"
serde = { version = "1", features = ["derive"] }
serde-transcode = "1"
serde_ignored = "*"
serde_json = "1"
serde_yaml = "0.9"
sha2 = "0.10"
tokio = { version = "1", features = ["rt-multi-thread", "macros", "fs", "io-util"] }

[dev-dependencies]
regex = "1"
