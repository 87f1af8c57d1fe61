[package]
name = "blog_publish"
version = "0.1.0"
edition = "2021"
publish = false

[dependencies]
chrono = "0.4.23"
serde_yaml = "0.9.16"
slugify = "0.1.0"

[dev-dependencies]
regex = "1.7.0"
