[package]
name = "datacenter"
version = "0.1.0"
edition = "2021"
publish = false

[dependencies]
serde_json = "1"
tokio = { version = "1", features = ["rt-multi-thread", "net", "io-util", "time", "sync", "macros"] }
rumqttc = "*"
neo4rs = "*"
log = "0.4"
env_logger = "*"
dotenv = "*"
