[package]
name = "playground_rocket"
version = "0.1.0"
edition = "2021"
publish = false

[dependencies]
diesel = { version = "*", features = ["sqlite"] }
dotenv = "*"
prometheus = "*"
rocket = { version = "*", features = ["json"] }
rocket_okapi = { version = "*", features = ["swagger"] }
rocket_prometheus = "*"
rocket_sync_db_pools = { version = "*", features = ["diesel_sqlite_pool"] }
serde = { version = "*", features = ["derive"] }
serde_derive = "*"
