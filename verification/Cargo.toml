[package]
name = "irodori_lakehouse"
version = "0.1.0"
edition = "2021"
publish = false

[dependencies]
serde_json = "=1.0.154"
ureq = "=2.12.1"
duckdb = "=1.4.5"
