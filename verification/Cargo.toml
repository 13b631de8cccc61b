[package]
name = "recent_checkouts"
version = "0.1.0"
edition = "2021"
publish = false

[dependencies]
rayon = "*"
clap = { version = "*", features = ["derive"] }
