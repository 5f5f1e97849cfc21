[package]
name = "cliip_show"
version = "0.1.0"
edition = "2021"
publish = false

[dependencies]
unicode-segmentation = "1"
serde = { version = "1", features = ["derive"] }
toml = "0.8"
objc2 = "0.5"
objc2-foundation = "0.2"
