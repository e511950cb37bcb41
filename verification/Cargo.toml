[package]
name = "fso_tables"
version = "0.1.0"
edition = "2021"
publish = false

[dependencies]
regex = "1"
once_cell = "1"
strum = { version = "0.26", features = ["derive"] }
strum_macros = "0.26"
