[package]
name = "vector_operations"
version = "0.1.0"
edition = "2021"
publish = false

[dependencies]
actix-web = "*"
actix-files = "*"
actix-cors = "*"
serde = { version = "*", features = ["derive"] }
webbrowser = "*"
