[package]
name = "globalsearch_benches"
version = "0.1.0"
edition = "2021"
publish = false

[dependencies]
argmin_testfunctions = "=0.3.0"
clap = { version = "=4.6.7", features = ["derive"] }
globalsearch = "=0.6.0"
ndarray = "=0.16.1"
plotly = "=0.14.1"
serde = { version = "=1.0.229", features = ["derive"] }
serde_json = "=1.0.154"
