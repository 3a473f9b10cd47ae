[package]
name = "changelog_gen"
version = "0.1.0"
edition = "2021"
publish = false

[dependencies]
chrono = "=0.4.45"
serde_json = "=1.0.154"
clap = { version = "=4.6.7", features = ["derive"] }
futures = "=0.3.34"
octocrab = "=0.40.0"
tokio = { version = "=1.54.1", features = ["macros", "rt-multi-thread"] }
