[package]
name = "ftrio"
version = "0.1.2"
edition = "2021"
publish = false

[dependencies]
serde_json = "=1.0.154"
rand = "=0.8.8"
sha2 = "=0.10.9"
clap = { version = "=4.6.7", features = ["derive"] }
syn = { version = "=2.0.119", features = ["full", "visit"] }
ureq = { version = "=2.12.1", default-features = false }
proc-macro2 = { version = "=1.0.107", features = ["span-locations"] }
