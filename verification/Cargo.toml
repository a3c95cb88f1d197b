[package]
name = "dbmeta"
version = "0.1.0"
edition = "2021"
publish = false

[dependencies]
sqlx = { version = "*", default-features = false, features = ["mysql", "postgres", "runtime-tokio"] }
async-trait = "*"
url = "*"
