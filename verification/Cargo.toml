[package]
name = "delivery_user"
version = "0.1.0"
edition = "2021"
publish = false

[dependencies]
actix-web = "4"
actix-web-httpauth = "0.8"
actix-web-validator = "5"
anyhow = "1"
argonautica = "0.2"
bb8 = "0.8"
chrono = { version = "0.4", features = ["serde"] }
diesel = { version = "2.1", features = ["chrono", "uuid", "postgres_backend"] }
diesel-async = { version = "0.4", features = ["postgres", "bb8"] }
dotenvy = "0.15"
futures = "0.3"
futures-util = "0.3"
hmac = "0.12"
jwt = "0.16"
prost = "0.11"
serde = { version = "1", features = ["derive"] }
serde_json = "1"
sha2 = "0.10"
structopt = "0.3"
tokio = { version = "1", features = ["macros", "rt-multi-thread", "time"] }
tonic = "0.9"
tracing = "0.1"
tracing-actix-web = "0.7"
tracing-appender = "0.2"
tracing-bunyan-formatter = "0.3"
tracing-subscriber = { version = "0.3", features = ["env-filter"] }
uuid = { version = "1", features = ["v4", "serde"] }
validator = { version = "0.16", features = ["derive", "phone"] }
