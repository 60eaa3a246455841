[package]
name = "userdata_api"
version = "0.1.0"
edition = "2021"
publish = false

[dependencies]
rust-crypto = "0.2.36"
base64 = "0.13"
actix-web = { version = "4", default-features = false, features = ["macros"] }
async-trait = "0.1"
deadpool-postgres = "0.10"
derive_more = "0.99"
dotenv = "0.15"
reqwest = { version = "0.11", default-features = false, features = ["json", "rustls-tls"] }
serde = { version = "1", features = ["derive"] }
tokio = { version = "1", features = ["macros", "rt-multi-thread"] }
tokio-pg-mapper = "0.2"
tokio-pg-mapper-derive = "0.2"
tokio-postgres = "0.7"
twilight-http = "0.8"
twilight-model = "0.8"
