[package]
name = "hdiff_apply"
version = "0.1.0"
edition = "2021"
publish = false

[dependencies]
serde_json = "*"
rayon = "*"
clap = { version = "*", features = ["derive"] }
rand = "*"
crossterm = "*"
tracing = "*"
tracing-subscriber = "*"
ansi_term = "*"
thiserror = "*"
