[package]
name = "squire"
version = "0.1.0"
edition = "2021"
publish = false

[dependencies]
sha2 = "=0.11.0"
url = "=2.5.8"
regex = "=1.13.1"
clap = "=4.6.7"
crates-index = { version = "=3.14.2", features = ["git"] }
futures-util = "=0.3.34"
log = "=0.4.34"
reqwest = { version = "=0.13.5", features = ["stream"] }
simple_logger = "=5.2.0"
tokio = { version = "=1.53.2", features = ["macros", "rt-multi-thread"] }
