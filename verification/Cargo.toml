[package]
name = "chainsaw"
version = "0.1.0"
edition = "2021"
publish = false

[dependencies]
clap = { version = "4", features = ["derive"] }
config = "0.15"
tokio = { version = "1", features = ["macros", "rt-multi-thread", "sync"] }
zbus = { version = "5", default-features = false, features = ["tokio"] }
