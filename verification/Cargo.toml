[package]
name = "server_watch"
version = "0.1.0"
edition = "2021"
publish = false

[dependencies]
encoding = "0.2"
log = "*"
simple_logger = "*"
getopts = "*"
args = "*"
alert = "*"
rodio = "*"
reqwest = { version = "*", default-features = false }
tokio = { version = "*", features = ["macros", "rt-multi-thread", "net", "time"] }
