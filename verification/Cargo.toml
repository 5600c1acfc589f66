[package]
name = "template_module"
version = "0.1.0"
edition = "2021"
publish = false

[dependencies]
abi_stable = "=0.11.3"
dynisland-abi = "=0.1.3"
dynisland-core = { version = "=0.1.3", features = ["macro"] }
env_logger = "=0.11.11"
grass = "=0.13.4"
ron = "=0.8.1"
serde = { version = "=1.0.229", features = ["derive"] }
serde_json = "=1.0.154"
tokio = { version = "=1.54.1", features = ["rt-multi-thread", "sync", "time"] }
