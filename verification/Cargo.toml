[package]
name = "legendado_server"
version = "0.1.0"
edition = "2021"
publish = false

[dependencies]
chrono = { version = "0.4", features = ["serde"] }
jsonwebtoken = "9"
postgres = { version = "0.19", features = ["with-chrono-0_4"] }
rand = "0.7"
rocket = { version = "0.5", features = ["json"] }
rocket_cors = "0.6"
serde = { version = "1", features = ["derive"] }
