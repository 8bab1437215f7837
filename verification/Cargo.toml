[package]
name = "cargo_ebuild"
version = "0.5.4"
edition = "2021"
rust-version = "1.95"
publish = false

[dependencies]
anyhow = "=1.0.104"
cargo_metadata = "=0.23.1"
kstring = "=2.0.0"
rustsec = "=0.33.0"
serde = { version = "=1.0.229", features = ["derive"] }
structopt = "=0.3.26"
tera = "=1.20.1"
time = "=0.3.55"
