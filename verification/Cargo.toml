[package]
name = "tuna_server"
version = "0.1.0"
edition = "2021"
publish = false

[dependencies]
bcrypt = "0.15"
uuid = { version = "1", features = ["v4"] }
serde_json = "1"
serde_yaml = "0.9"
utoipa = { version = "4", features = ["yaml", "rocket_extras"] }
rocket = { version = "0.5", features = ["json"] }
rocket_sync_db_pools = { version = "0.1", features = ["sqlite_pool"] }
refinery = { version = "0.8", features = ["rusqlite"] }
