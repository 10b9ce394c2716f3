[package]
name = "batch_tracking"
version = "0.1.0"
edition = "2021"
publish = false

[dependencies]
diesel = { version = "1.4", features = ["r2d2"] }
