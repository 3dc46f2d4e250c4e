[package]
name = "guard_combinator"
version = "0.1.0"
edition = "2021"
publish = false

[dependencies]
axum-core = "0.3"
futures-core = "0.3"
http = "0.2"
tower-layer = "0.3"
tower-service = "0.3"
