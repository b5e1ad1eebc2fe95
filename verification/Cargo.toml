[package]
name = "bingo_server"
version = "0.1.0"
edition = "2021"
publish = false

[dependencies]
actix-cors = "0.7"
actix-identity = "0.7"
actix-session = { version = "0.9", features = ["cookie-session"] }
actix-web = { version = "4", default-features = false, features = ["macros", "cookies"] }
actix-ws = "0.3"
anyhow = "1"
argon2 = "0.5"
base64 = "0.22"
futures-util = { version = "0.3", default-features = false, features = ["std"] }
log = "0.4"
rand = "0.8"
serde = { version = "1", features = ["derive"] }
serde_json = "1"
shuttle-actix-web = "*"
shuttle-runtime = { version = "*", default-features = false }
shuttle-shared-db = { version = "*", features = ["postgres", "sqlx"] }
sqlx = { version = "0.8", default-features = false, features = ["postgres", "runtime-tokio", "uuid", "macros", "migrate"] }
tokio = { version = "1", features = ["sync", "rt", "macros", "time"] }
