[package]
name = "arena_server"
version = "0.1.0"
edition = "2021"
publish = false

[dependencies]
sha2 = "=0.10.9"
hex = "=0.4.3"
rand = "=0.8.8"
uuid = { version = "=1.29.0", features = ["v4"] }
argon2 = "=0.5.3"
data-encoding = "=2.11.1"
base64 = "=0.21.7"
email_address = "=0.2.9"
lettre = { version = "=0.11.23", default-features = false, features = ["builder", "smtp-transport", "tokio1"] }
postcard = { version = "=1.1.3", features = ["alloc"] }
serde = { version = "=1.0.229", features = ["derive"] }
serde_json = "=1.0.154"
tokio = { version = "=1.54.1", features = ["full"] }
axum = { version = "=0.7.9", features = ["ws"] }
tower-http = { version = "=0.5.2", features = ["fs", "set-header"] }
clap = { version = "=4.6.7", features = ["derive", "env"] }
log = "=0.4.35"
env_logger = "=0.11.11"
chrono = "=0.4.45"
once_cell = "=1.21.4"
prometheus = { version = "=0.13.4", default-features = false }
sea-orm = { version = "=1.1.20", default-features = false, features = ["macros", "with-chrono", "with-json", "with-uuid"] }
sqlx = { version = "=0.8.6", default-features = false, features = ["postgres", "runtime-tokio", "chrono", "uuid"] }
anyhow = "=1.0.104"
glam = "=0.34.2"
sea-orm-migration = { version = "1.1", default-features = false }
async-trait = "0.1"
