[package]
name = "kic_script_gen"
version = "0.1.0"
edition = "2021"
publish = false

[dependencies]
quick-xml = "0.36"
serde = { version = "1", features = ["derive"] }
serde_json = "1"
chrono = "0.4"
uuid = { version = "1", features = ["v4"] }
thiserror = "1"
anyhow = "1"
phf = { version = "0.11", features = ["macros"] }
lazy_static = "1"
actix-web = { version = "4", default-features = false, features = ["macros"] }
actix-files = "0.6"
actix-cors = "0.7"
actix-ws = "0.3"
tokio = { version = "1", features = ["sync", "signal", "io-std", "io-util", "macros", "rt-multi-thread"] }
futures = "0.3"
