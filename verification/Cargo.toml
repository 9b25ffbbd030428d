[package]
name = "twba_uploader"
version = "0.1.0"
edition = "2021"
publish = false

[dependencies]
chrono = "0.4"
google-youtube3 = "5"
lazy_static = "1"
shellexpand = "3"
strfmt = "0.2"
thiserror = "1"
tokio = { version = "1", features = ["rt-multi-thread", "macros", "fs", "time", "io-util"] }
tracing = "0.1"
yup-oauth2 = "8"
