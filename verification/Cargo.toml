[package]
name = "rinf_router"
version = "1.2.0"
edition = "2021"
publish = false

[dependencies]
rinf = "=8.11.0"
tower = { version = "=0.5.3", features = ["util"] }
futures = "=0.3.34"
serde = { version = "=1.0.229", features = ["derive"] }
tokio = { version = "=1.54.1", features = ["rt", "macros"] }
async-trait = "0.1"
