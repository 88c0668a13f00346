[package]
name = "road_render"
version = "0.1.0"
edition = "2021"
publish = false

[dependencies]
rbx_binary = "*"
rbx_dom_weak = "*"
rbx_types = "*"
serde = { version = "*", features = ["derive"] }
serde_json = "*"
image = { version = "*", default-features = false, features = ["png"] }
