[package]
name = "komari"
version = "0.1.0"
edition = "2021"

[dependencies]
chrono = "0.4"
parse_link_header = "0.3"
regex = "1"
serde_json = "1"
structopt = "0.3"
