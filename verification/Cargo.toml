[package]
name = "kaku"
version = "0.1.0"
edition = "2021"
publish = false

[dependencies]
chrono = { version = "*", default-features = false, features = ["std", "clock"] }
serde = { version = "*", features = ["derive"] }
serde_json = "*"
clap = { version = "*", features = ["derive"] }
anyhow = "*"
shlex = "*"
termwiz = "*"
tabout = "*"
portable-pty = "*"
dirs-next = "*"
