[package]
name = "hotdog"
version = "0.1.0"
edition = "2021"
publish = false

[dependencies]
dioxus = { version = "0.7", default-features = false, features = ["macro", "html", "signals", "hooks", "launch", "document", "asset", "router", "fullstack", "server"] }
reqwest = { version = "0.12", default-features = false, features = ["json"] }
rusqlite = "0.32"
serde = { version = "1", features = ["derive"] }
