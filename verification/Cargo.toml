[package]
name = "palmshell"
version = "0.1.0"
edition = "2021"
publish = false

[dependencies]
chrono = "0.4"
colorgrad = "0.7"
dotenvy = "0.15"
os_pipe = "1"
owo-colors = "4"
rand = "0.9"
reqwest = { version = "0.12", features = ["json"] }
rustyline = "15"
serde_json = "1"
tokio = { version = "1", features = ["rt-multi-thread"] }
whoami = "1"
