[package]
name = "byte_fortress"
version = "0.1.0"
edition = "2021"
publish = false

[dependencies]
actix-cors = "0.7"
actix-web = "4"
bson = "2"
chrono = "0.4"
console = "0.15"
indicatif = "0.17"
open = "5"
rocksdb = "*"
serde = { version = "1", features = ["derive"] }
serde_json = "1"

[dev-dependencies]
tempfile = "3"
