[package]
name = "route_resolver"
version = "0.1.0"
edition = "2021"
publish = false

[dependencies]
strsim = "0.11"
axum = "0.6"
maud = "0.26"
tokio = { version = "1", features = ["full"] }
