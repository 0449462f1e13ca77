[package]
name = "jjamcore"
version = "0.1.0"
edition = "2021"
publish = false

[dependencies]
chrono = "0.4"
lazy_static = "1"
reqwest = { version = "0.11", default-features = false, features = ["rustls-tls"] }
serde = { version = "1", features = ["derive"] }
serde_json = "1"
sqlx = { version = "0.8", default-features = false, features = ["runtime-tokio", "tls-rustls", "sqlite", "chrono", "macros", "migrate"] }
takecell = "=0.1.1"
teloxide = { version = "0.13", default-features = false, features = ["rustls", "ctrlc_handler"] }
tokio = { version = "1", features = ["macros", "rt-multi-thread", "time"] }
