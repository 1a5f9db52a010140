[package]
name = "register"
version = "0.1.0"
edition = "2021"
publish = false

[dependencies]
indexmap = "2"
chrono = "0.4"
rusqlite = { version = "*", features = ["bundled", "chrono"] }
rusqlite_migration = "*"
genpdf = { version = "0.2", features = ["images"] }
dirs = "*"
serde = { version = "1", features = ["derive"] }
serde_json = "1"
strum = { version = "*", features = ["derive"] }
