[package]
name = "doubleblind_science"
version = "0.1.0"
edition = "2021"
publish = false

[dependencies]
anyhow = "=1.0.104"
async-compression = { version = "=0.4.51", features = ["tokio", "gzip"] }
async-trait = "=0.1.92"
axum = "=0.6.20"
axum-extra = { version = "=0.8.0", features = ["cookie"] }
bytes = "=1.12.1"
clap = { version = "=4.6.7", features = ["derive", "env"] }
futures-util = "=0.3.34"
hex = "=0.4.3"
hmac = "=0.12.1"
hyper = "=0.14.32"
josekit = "=0.8.7"
oauth2 = "=4.4.2"
rand = "=0.8.8"
reqwest = { version = "=0.11.27", features = ["json", "stream"] }
sea-orm = { version = "=0.12.15", default-features = false, features = ["macros", "sqlx-postgres", "runtime-tokio-rustls", "with-time", "with-uuid"] }
sea-orm-migration = { version = "0.12", default-features = false, features = ["sqlx-postgres", "runtime-tokio-rustls"] }
sea-query = "=0.30.7"
serde = { version = "=1.0.229", features = ["derive"] }
serde_json = "=1.0.154"
sha2 = "=0.10.9"
time = { version = "=0.3.55", features = ["serde-well-known", "parsing", "formatting"] }
tokio = { version = "=1.54.1", features = ["full"] }
tokio-tar = "=0.3.1"
tokio-util = { version = "=0.7.20", features = ["io"] }
tower-http = { version = "=0.4.4", features = ["cors", "trace"] }
tracing = "=0.1.44"
tracing-subscriber = "=0.3.23"
url = "=2.5.8"
uuid = { version = "=1.29.0", features = ["v4", "serde"] }
