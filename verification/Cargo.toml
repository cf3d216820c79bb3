[package]
name = "taskflow"
version = "0.1.0"
edition = "2021"
publish = false

[dependencies]
chrono = "=0.4.45"
colored = "=3.1.1"
dialoguer = "=0.12.0"
directories = "=6.0.0"
indicatif = "=0.18.6"
octocrab = "=0.44.1"
tokio = { version = "=1.53.2", features = ["macros", "rt-multi-thread"] }
webbrowser = "=1.2.4"
