[package]
name = "the_solana_api"
version = "0.1.0"
edition = "2021"
publish = false

[dependencies]
url = "2"
csv = "1"
rand = "0.8"
serde = { version = "1", features = ["derive"] }
actix-web = { version = "4", default-features = false, features = ["macros"] }
awc = { version = "3", default-features = false }
tracing = "0.1"
tracing-subscriber = { version = "0.3", features = ["env-filter"] }
