[package]
name = "sensor_node"
version = "0.1.0"
edition = "2021"
publish = false

[dependencies]
anyhow = "1"
embedded-svc = "0.28"
enumset = "1"
esp-idf-hal = "0.44"
esp-idf-svc = "0.49"
log = "0.4"
mutually_exclusive_features = "0.1"
pad = "0.1"
percent-encoding = "2"
serde_json = "1"
url_encoded_data = "*"
