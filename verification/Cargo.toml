[package]
name = "notion_to_day_one"
version = "0.1.0"
edition = "2021"
publish = false

[dependencies]
glob = "0.3"
time = { version = "0.3", features = ["formatting", "macros", "parsing"] }
urlencoding = "2"
