[package]
name = "ic_sqlite_backup"
version = "0.1.0"
edition = "2021"
publish = false

[dependencies]
ic-cdk = "0.13"
rusqlite = { version = "*", features = ["bundled"] }
