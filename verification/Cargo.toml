[package]
name = "roform"
version = "0.1.0"
edition = "2021"
publish = false

[dependencies]
blake3 = "=1.8.7"
rbx_mesh = "=0.8.2"
rbx_binary = "=3.0.1"
rbx_dom_weak = "=4.2.0"
rbx_types = "=3.1.0"
rbx_reflection = "=7.0.0"
rbx_reflection_database = "=3.0.1"
rbx_xml = "=3.0.1"
serde = { version = "=1.0.229", features = ["derive"] }
serde_json = "=1.0.154"
clap = { version = "=4.6.7", features = ["derive"] }
mhif = "*"
