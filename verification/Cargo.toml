[package]
name = "markdown_constructs"
version = "0.1.0"
edition = "2021"
publish = false

[dependencies]
unicode-properties = { version = "0.1", default-features = false, features = ["general-category"] }
