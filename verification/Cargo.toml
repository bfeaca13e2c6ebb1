[package]
name = "httploadtesting"
version = "0.1.0"
edition = "2021"
publish = false

[dependencies]
reqwest = { version = "0.12", default-features = false, features = ["blocking"] }
clap = "4"
threadpool = "1"
