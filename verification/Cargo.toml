[package]
name = "valyou"
version = "0.1.0"
edition = "2021"
publish = false

[dependencies]
actix-identity = "=0.2.1"
actix-rt = "1.0"
actix-web = { version = "=2.0.0", default-features = false }
bcrypt = "=0.8.2"
chrono = { version = "=0.4.19", features = ["serde"] }
diesel = { version = "=1.4.8", features = ["postgres", "r2d2", "chrono"] }
dotenv = "=0.15.0"
env_logger = "=0.7.1"
jsonwebtoken = "=7.2.0"
r2d2 = "0.8"
serde = { version = "1.0", features = ["derive"] }
serde_json = "=1.0.154"
