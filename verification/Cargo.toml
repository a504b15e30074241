[package]
name = "blockchain"
version = "0.1.0"
edition = "2021"
publish = false

[dependencies]
actix-cors = "0.7"
actix-web = "4"
bincode = "1"
bs58 = "0.5"
chrono = { version = "0.4", features = ["serde"] }
dashmap = "5"
ed25519-dalek = { version = "2", features = ["rand_core"] }
env_logger = "0.11"
hex = "0.4"
log = "0.4"
rand = "0.8"
serde = { version = "1", features = ["derive"] }
serde_json = "1"
sha2 = "0.10"
sled = "0.34"
thiserror = "1"
utoipa = { version = "*", features = ["actix_extras", "chrono"] }
utoipa-swagger-ui = { version = "*", features = ["actix-web"] }
uuid = { version = "1", features = ["v4", "serde"] }
