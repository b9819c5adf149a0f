[package]
name = "month_calendar"
version = "0.1.0"
edition = "2021"
publish = false

[dependencies]
chrono = { version = "0.4", default-features = false }
num-traits = "0.2"
serde = { version = "1", features = ["derive"] }
handlebars = "4"
tokio = { version = "1", features = ["macros", "rt-multi-thread"] }
warp = "0.3"
