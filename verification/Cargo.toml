[package]
name = "todos"
version = "0.1.0"
edition = "2021"
publish = false

[dependencies]
chrono = "0.4"
dioxus = { version = "0.6", default-features = false, features = ["macro", "html", "signals", "hooks", "launch", "document", "asset"] }
