[package]
name = "tutti_frutti"
version = "0.1.0"
edition = "2021"
publish = false

[dependencies]
anyhow = "1"
chrono = "0.4"
crossterm = "0.27"
futures = "0.3"
open = "5"
ratatui = "0.26"
reqwest = { version = "0.12", features = ["json", "cookies"] }
serde = { version = "1", features = ["derive"] }
serde_json = "1"
tokio = { version = "1", features = ["rt-multi-thread", "macros", "time"] }
urlencoding = "2"
uuid = { version = "1", features = ["v4"] }
