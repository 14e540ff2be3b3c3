[package]
name = "kafka_bridge"
version = "0.1.0"
edition = "2021"
publish = false

[dependencies]
json = "0.12"
rdkafka = { version = "*", default-features = false }
