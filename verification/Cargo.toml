[package]
name = "kata_checkpoint"
version = "0.1.0"
edition = "2021"
publish = false

[dependencies]
anyhow = "1"
async-trait = "0.1"
futures = "0.3"
nix = { version = "0.30", features = ["fs", "mount", "process", "sched", "user"] }
oci-spec = "*"
serde = { version = "1", features = ["derive"] }
serde_json = "=1.0.154"
tokio = { version = "1", features = ["fs", "io-util", "macros", "process", "rt-multi-thread", "sync", "time"] }
ttrpc = { version = "0.10", features = ["async"] }
