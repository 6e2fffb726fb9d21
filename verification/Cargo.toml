[package]
name = "query_planner"
version = "0.1.0"
edition = "2021"
publish = false

[dependencies]
anyhow = "1"
arrow = { version = "*", default-features = false }
csv = "1"
sqlparser = "*"
