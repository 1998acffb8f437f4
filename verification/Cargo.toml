[package]
name = "neo4j_testcontainers"
version = "0.1.0"
edition = "2021"
publish = false

[dependencies]
testcontainers-modules = { version = "0.3", features = ["neo4j"] }
