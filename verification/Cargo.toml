[package]
name = "ajisen"
version = "0.1.0"
edition = "2021"
publish = false

[dependencies]
chrono = "0.4"
config = "0.10"
fern = { version = "0.6", features = ["colored"] }
log = "0.4"
rand = "0.7"
serde = { version = "1", features = ["derive"] }
serenity = "0.12"
tokio = { version = "1", features = ["macros", "rt-multi-thread", "time"] }

[dev-dependencies]
regex = "1"
