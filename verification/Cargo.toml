[package]
name = "mongo_task_gen"
version = "0.1.0"
edition = "2021"
publish = false

[dependencies]
yaml-rust = "0.4"
chrono = "0.4"
shrub-rs = "*"
evg-api-rs = "*"
tokio = { version = "1", features = ["full"] }
futures = "0.3"
serde = { version = "1", features = ["derive"] }
serde_json = "1"
serde_yaml = "*"
structopt = "0.3"
cmd_lib = "*"
rayon = "1"
