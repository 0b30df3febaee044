[package]
name = "chat_auth"
version = "0.1.0"
edition = "2021"
publish = false

[dependencies]
anyhow = "=1.0.104"
argon2 = "=0.6.0"
async_once = "=0.2.6"
csrf = "=0.5.0"
data-encoding = "=2.11.1"
dotenv = "=0.15.0"
env_logger = "=0.11.11"
futures-util = "=0.3.34"
lazy_static = "=1.5.1"
log = "=0.4.34"
serde = { version = "=1.0.229", features = ["derive"] }
sqlx = { version = "=0.9.0", default-features = false, features = ["runtime-tokio", "sqlite"] }
tera = "=2.4.0"
tokio = { version = "=1.53.2", features = ["full"] }
warp = { version = "=0.4.3", features = ["server", "websocket"] }
