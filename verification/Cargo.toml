[package]
name = "kafka-repo"
version = "0.2.0"
edition = "2021"
publish = false

[dependencies]
actix-cors = "0.7"
actix-files = "0.6"
actix-rate-limiter = "0.1"
actix-web = { version = "4", default-features = false, features = ["macros"] }
async-openai = "0.23"
azure_core = "0.20"
azure_identity = "0.20"
azure_storage = "0.20"
azure_storage_blobs = "0.20"
chrono = { version = "0.4", default-features = false, features = ["clock", "std"] }
derive_more = "0.99"
dotenv = "0.15"
futures = "0.3"
futures-util = "0.3"
jsonwebtoken = "9"
log = "0.4"
pretty_env_logger = "0.5"
reqwest = { version = "0.12", default-features = false, features = ["json"] }
serde = { version = "1", features = ["derive"] }
serde_json = "1"
tokio = { version = "1", default-features = false, features = ["sync"] }
