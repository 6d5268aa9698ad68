[package]
name = "comp_graph"
version = "0.1.0"
edition = "2021"
publish = false

[dependencies]
inventory = "0.3"
proc-macro2 = "1"
quote = "1"
serde = { version = "1", features = ["derive"] }
serde_json = "1"
syn = "2"
