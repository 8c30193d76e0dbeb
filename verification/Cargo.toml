[package]
name = "hbs_helpers"
version = "0.1.0"
edition = "2021"
publish = false

[dependencies]
anyhow = "1"
chrono = "0.4"
clap = { version = "4", features = ["derive"] }
handlebars = "6"
rand = "0.8"
serde_json = "1"
