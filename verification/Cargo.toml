[package]
name = "cq_workloads"
version = "0.1.0"
edition = "2021"
publish = false

[dependencies]
duckdb = { version = "*", default-features = false }
