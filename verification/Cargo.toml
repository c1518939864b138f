[package]
name = "solar_production"
version = "0.1.0"
edition = "2021"
publish = false

[dependencies]
spa_sra = "*"
chrono = "*"
serde = { version = "*", features = ["derive"] }
serde_json = "*"
md-5 = "*"
toml = "*"
log = "*"
reqwest = { version = "*", default-features = false }
tokio = { version = "*", features = ["fs", "macros", "rt-multi-thread"] }
actix-web = "*"
