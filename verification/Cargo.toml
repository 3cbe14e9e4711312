[package]
name = "terminal_file_explorer"
version = "0.1.0"
edition = "2021"
publish = false

[dependencies]
chrono = "0.4"
crossterm = "0.28"
ratatui = "0.29"
serde = { version = "1", features = ["derive"] }
toml = "0.8"
directories = "5"
id3 = "1"
opener = "0.7"
syntect = { version = "5", default-features = false, features = ["default-fancy"] }
