[package]
name = "wwrpc"
version = "0.2.0"
edition = "2021"
publish = false

[dependencies]
chrono = "=0.4.45"
clap = { version = "=4.6.7", features = ["derive"] }
ctrlc = { version = "=3.5.2", features = ["termination"] }
libc = "=0.2.191"
rusqlite = { version = "=0.41.1", features = ["bundled"] }
serde_json = "=1.0.154"
ureq = "=3.5.1"
