[package]
name = "better_reporter_agent"
version = "0.3.0"
edition = "2021"
publish = false

[dependencies]
clap = "*"
notify = "*"
notify-debouncer-mini = "*"
reqwest = { version = "*", default-features = false, features = ["json"] }
tokio = { version = "*", features = ["macros", "rt-multi-thread"] }
