[package]
name = "ecliptica_data_analyzer"
version = "0.1.0"
edition = "2021"
publish = false

[dependencies]
anyhow = "1"
axum = "0.8"
chrono = "0.4"
crossbeam-channel = "0.5"
directories = "*"
file-id = "*"
getrandom = "0.3"
handlebars = "6"
keytap = "*"
parking_lot = "0.12"
regex = "1"
rodio = "*"
rosc = "*"
serde = { version = "1", features = ["derive"] }
serde_json = "1"
sys-locale = "*"
tempfile = "3"
tokio = { version = "1", features = ["rt", "net", "time", "macros", "sync"] }
unicode-normalization = "0.1"
