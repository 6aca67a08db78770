[package]
name = "nazonazo"
version = "0.1.0"
edition = "2021"
publish = false

[dependencies]
indexmap = "1"
itertools = "0.8"
quick-error = "1"
rand = "0.7"
serde = { version = "1", features = ["derive"] }
serenity = "0.7"
toml = "0.5"
unicode-segmentation = "1"
