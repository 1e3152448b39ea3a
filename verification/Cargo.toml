[package]
name = "workflow-engine"
version = "0.1.0"
edition = "2021"
publish = false

[dependencies]
actix-web = { version = "4", default-features = false, features = ["macros"] }
async-once-cell = "0.5"
async-trait = "0.1"
chrono = { version = "0.4", features = ["serde"] }
futures = "0.3"
lettre = { version = "0.11", default-features = false, features = ["builder", "smtp-transport", "tokio1"] }
log = "0.4"
log4rs = "1"
reqwest = { version = "0.11", default-features = false, features = ["stream"] }
rmp-serde = "1"
serde = { version = "1", features = ["derive"] }
serde_json = "1"
sqlx = { version = "0.7", default-features = false, features = ["runtime-tokio", "postgres", "chrono", "json", "ipnetwork", "macros"] }
thiserror = "1"
tokio = { version = "1", features = ["full"] }
