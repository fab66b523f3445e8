[package]
name = "lucris"
version = "0.1.0"
edition = "2021"
publish = false

[dependencies]
uuid = { version = "=1.29.0", features = ["v4"] }
scraper = "=0.29.0"
ego-tree = "=0.11.1"
serde = { version = "=1.0.229", features = ["derive"] }
serde_json = "=1.0.154"
clap = { version = "=4.6.7", features = ["derive"] }
rayon = "=1.12.0"
log = "=0.4.34"
flexi_logger = "=0.31.10"
