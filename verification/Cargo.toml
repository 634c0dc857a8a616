[package]
name = "handlematters"
version = "0.1.0"
edition = "2021"
publish = false

[dependencies]
serde_yaml = "*"
handlebars = "*"
clap = { version = "*", features = ["derive"] }
