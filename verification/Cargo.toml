[package]
name = "meal_rating"
version = "0.1.0"
edition = "2021"
publish = false

[dependencies]
uuid = { version = "=1.27.0", features = ["v4"] }
chrono = { version = "=0.4.45", features = ["serde"] }
serde = { version = "*", features = ["derive"] }
serde_json = "*"
serde_repr = "*"
serde_yaml = "*"
actix-web = "*"
