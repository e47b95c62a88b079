[package]
name = "twobytwenty"
version = "0.1.0"
edition = "2021"
publish = false

[dependencies]
chrono = "0.4"
clap = "2"
fern = "0.6"
iced = { version = "0.3", features = ["tokio"] }
iced_native = "0.4"
log = "0.4"
serde = { version = "1", features = ["derive"] }

[dev-dependencies]
toml = "0.5"
