[package]
name = "amigo_secreto"
version = "0.1.0"
edition = "2021"
publish = false

[dependencies]
clap = { version = "=4.6.7", features = ["derive"] }
csv = "=1.4.0"
dotenvy = "=0.15.7"
lettre = "=0.11.23"
rand = "=0.8.8"
rand_chacha = "=0.3.1"
rand_seeder = "=0.3.0"
refinery = { version = "=0.8.16", features = ["rusqlite"] }
rusqlite = "=0.33.0"
serde = { version = "=1.0.229", features = ["derive"] }
tracing = "=0.1.44"
tracing-subscriber = { version = "=0.3.23", features = ["env-filter"] }
