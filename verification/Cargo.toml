[package]
name = "search-stack-exchange"
version = "0.1.0"
edition = "2021"
publish = false

[dependencies]
aleph-alpha-client = "*"
anyhow = "1"
atoi = "2"
clap = { version = "4", features = ["derive", "env"] }
ordered-float = "*"
quick-xml = "0.31"
thiserror = "1"
tokio = { version = "1", features = ["rt", "macros"] }
