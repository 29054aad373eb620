[package]
name = "tockloader"
version = "0.1.0"
edition = "2021"
publish = false

[dependencies]
bytes = "1"
async-trait = "0.1"
clap = { version = "4", features = ["cargo"] }
console = "0.15"
enum_dispatch = "0.3"
futures = "0.3"
tokio = { version = "1", features = ["macros", "rt-multi-thread", "time", "io-util", "sync"] }
tokio-serial = { version = "5.4", default-features = false }
tokio-util = { version = "0.7", features = ["codec"] }
