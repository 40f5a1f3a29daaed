[package]
name = "esera_mqtt"
version = "0.4.0"
edition = "2021"
publish = false

[dependencies]
anyhow = "1"
chrono = "0.4"
crossbeam = "0.8"
dotenv = "0.15"
env_logger = "*"
log = "0.4"
parking_lot = "*"
rumqttc = "*"
serde = { version = "1", features = ["derive"] }
serde_json = "1"
structopt = "0.3"
toml = "*"
