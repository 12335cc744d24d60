[package]
name = "acl_engine"
version = "0.1.0"
edition = "2021"
publish = false

[dependencies]
actix = "0.13"
actix-cors = "0.7"
actix-web = "4"
actix-web-actors = "4"
aes = "0.8"
base64 = "0.22"
build_html = "2"
cbc = "0.1"
chrono = "0.4"
env_logger = "0.11"
futures-util = "0.3"
jsonwebtoken = "9"
lettre = "0.11"
log = "0.4"
md-5 = "0.10"
rand = "0.8"
reqwest = "0.12"
serde = { version = "1", features = ["derive"] }
serde_json = { version = "1", features = ["preserve_order"] }
serde_yaml = "0.9"
sqlx = { version = "0.7", features = ["runtime-tokio", "sqlite", "mysql", "postgres"] }
tokio = { version = "1", features = ["full"] }
