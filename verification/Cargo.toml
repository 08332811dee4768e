[package]
name = "dscp_cli"
version = "0.1.0"
edition = "2021"
publish = false

[dependencies]
clap = { version = "*", features = ["derive"] }
clap_complete = "*"
ipnet = "*"
ptree = "*"

[dev-dependencies]
serde_json = "*"
