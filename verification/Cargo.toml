[package]
name = "conf_ops"
version = "0.1.0"
edition = "2021"
publish = false

[dependencies]
serde_json = "1"
sha256 = { version = "1", default-features = false }
serde = { version = "1", features = ["derive"] }
chrono = { version = "0.4", default-features = false, features = ["std", "now", "serde"] }
rocket = { version = "0.5", features = ["json", "secrets"] }
rocket_db_pools = { version = "0.2", features = ["diesel_mysql"] }
diesel = { version = "2", default-features = false, features = ["mysql_backend", "chrono", "serde_json"] }
diesel_migrations = "2"
tokio = { version = "1", features = ["fs", "io-util", "rt"] }
uuid = { version = "1", features = ["v4"] }
jsonwebtoken = { version = "9", default-features = false }
governor = { version = "0.6", default-features = false, features = ["std"] }
rust-i18n = "3"
