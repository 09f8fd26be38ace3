[package]
name = "arbscan"
version = "0.1.0"
edition = "2021"
publish = false

[dependencies]
dotenv = "*"
ethers = { version = "2", features = ["abigen"] }
tokio = { version = "1", default-features = false, features = ["rt-multi-thread", "time"] }
