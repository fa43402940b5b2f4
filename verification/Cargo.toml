[package]
name = "secret_santa"
version = "0.1.0"
edition = "2021"
publish = false

[dependencies]
poise = "0.6"
serenity = "0.12"
tokio = { version = "1", features = ["macros", "rt-multi-thread", "fs"] }
rusqlite = "*"
dotenvy = "0.15"
