[package]
name = "media_tag_lib"
version = "0.1.0"
edition = "2021"
publish = false

[dependencies]
rusqlite = "*"
clap = { version = "*", features = ["derive"] }
