[package]
name = "eopkg"
version = "0.1.0"
edition = "2021"
publish = false

[dependencies]
chrono = { version = "=0.4.45", default-features = false, features = ["std"] }
roxmltree = "=0.21.1"
structopt = "=0.3.26"
zip = { version = "=0.6.6", default-features = false, features = ["deflate"] }
