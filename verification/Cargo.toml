[package]
name = "sysy_compiler"
version = "0.1.0"
edition = "2021"
publish = false

[dependencies]
koopa = "*"
thiserror = "*"
anyhow = "*"
clap = { version = "4", features = ["derive"] }
derive_more = { version = "*", features = ["display"] }
