[package]
name = "todo_manager"
version = "0.1.0"
edition = "2021"

[dependencies]
serde_json = "1"
