[package]
name = "libium"
version = "0.1.0"
edition = "2021"
publish = false

[dependencies]
regex = "=1.13.1"
serde = { version = "=1.0.229", features = ["derive"] }
serde_json = "=1.0.154"
thiserror = "=2.0.21"
ferinth = "=2.13.1"
furse = "=1.6.1"
octocrab = "=0.47.1"
reqwest = { version = "=0.13.5", features = ["json"] }
tokio = { version = "=1.54.1", features = ["fs", "io-util", "macros", "rt"] }
tokio-util = { version = "=0.7.20", features = ["compat"] }
url = "=2.5.8"
once_cell = "=1.21.4"
home = "=0.5.12"
async_zip = { version = "=0.0.19", features = ["tokio", "tokio-fs", "deflate"] }
futures-util = "=0.3.34"
sha1 = "=0.11.0"
dialoguer = "=0.12.0"
async-recursion = "=1.2.0"
bitflags = "1"
bytes = "1"
clap = { version = "4", features = ["derive"] }
derive_more = { version = "1", features = ["display"] }
