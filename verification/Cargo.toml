[package]
name = "linkcheck"
version = "0.1.0"
edition = "2021"
publish = false

[dependencies]
url = "*"
select = "*"
reqwest = { version = "*", default-features = false }
tokio = { version = "*", features = ["macros", "rt-multi-thread", "time"] }
futures = "*"
clap = { version = "*", features = ["cargo"] }
