[package]
name = "sysdash"
version = "0.1.0"
edition = "2021"
publish = false

[dependencies]
csscolorparser = "*"
termion = "*"
unicode-width = "*"
humantime = "*"
sysinfo = "*"
toml = "*"
serde = { version = "*", features = ["derive"] }
clap = { version = "*", features = ["derive"] }
