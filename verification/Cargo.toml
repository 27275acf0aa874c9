[package]
name = "tictactoe"
version = "0.1.0"
edition = "2021"
publish = false

[dependencies]
rand = "0.9"
page-hunter = "*"
chrono = "0.4"
tokio = { version = "1", features = ["sync", "macros", "rt-multi-thread"] }
uuid = { version = "1", features = ["v4", "serde"] }
serde = { version = "1", features = ["derive"] }
serde_json = "1"
anyhow = "1"
actix-web = "4"
actix-ws = "0.3"
actix-cors = "0.7"
jsonwebtoken = "9"
sqlx = { version = "0.8", default-features = false, features = ["runtime-tokio", "postgres", "uuid", "json", "macros"] }
dotenv = "0.15"
dotenvy = "0.15"
