[package]
name = "two_phase_commit"
version = "0.1.0"
edition = "2021"
publish = false

[dependencies]
ipc-channel = "*"
ctrlc = "*"
stderrlog = "*"
log = "*"
clap = "*"
serde = { version = "1", features = ["derive"] }
serde_json = "1"
