[package]
name = "onagre"
version = "0.1.0"
edition = "2021"
publish = false

[dependencies]
shell-words = "=1.1.1"
serde = { version = "=1.0.229", features = ["derive"] }
toml = "=0.5.11"
iced = { version = "=0.2.0", features = ["image", "svg"] }
iced_native = "=0.3.0"
iced_style = "=0.2.0"
raqote = { version = "=0.8.0", default-features = false }
