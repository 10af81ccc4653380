[package]
name = "bulwark_ext_filter"
version = "0.1.0"
edition = "2021"
publish = false

[dependencies]
matchit = "0.7"
http = "*"
tokio = { version = "*", features = ["rt-multi-thread", "macros", "time", "sync"] }
tonic = "*"
futures = "*"
envoy-control-plane = "*"
redis = "*"
r2d2 = "*"
