[package]
name = "random_page_server"
version = "0.1.0"
edition = "2021"
publish = false

[dependencies]
hyper = { version = "0.14", features = ["full"] }
num_cpus = "1"
rand = "0.8"
tokio = { version = "1", features = ["full"] }
