[package]
name = "bridge_topology"
version = "0.1.0"
edition = "2021"
publish = false

[dependencies]
alloy = { version = "0.8", default-features = false, features = ["std", "contract", "providers", "rpc-types", "sol-types"] }
colored = "2"
eyre = "0.6"
futures = "0.3"
