[package]
name = "boinc_app_api"
version = "0.1.0"
edition = "2021"
publish = false

[dependencies]
anyhow = "*"
failure = "*"
futures = "0.3"
libc = "*"
serde = { version = "1", features = ["derive"] }
treexml = "*"
