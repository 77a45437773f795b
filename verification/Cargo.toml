[package]
name = "changelog_render"
version = "0.1.0"
edition = "2021"
publish = false

[dependencies]
unicode-segmentation = "1"
clap = { version = "4", features = ["derive"] }
colored = "2"
crossterm = "0.26"
futures = "0.3"
reqwest = "0.11"
reqwest-eventsource = "0.4"
serde = { version = "1", features = ["derive"] }
serde_json = "1"
terminal-supports-emoji = "*"
tokio = { version = "1", features = ["macros", "rt-multi-thread", "time"] }
