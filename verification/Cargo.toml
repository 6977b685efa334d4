[package]
name = "dycon"
version = "0.1.0"
edition = "2021"
publish = false

[dependencies]
anyhow = "1"
clap = { version = "4", features = ["derive"] }
ctrlc = "3.5"
fuser = "=0.17.0"
globset = "=0.4.21"
libc = "0.2"
nix = { version = "=0.31.3", features = ["dir"] }
rusqlite = { version = "=0.41.1", features = ["bundled"] }
tracing = "0.1"
tracing-subscriber = { version = "0.3", features = ["env-filter"] }
