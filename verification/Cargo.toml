[package]
name = "girlfriend_lib"
version = "0.1.0"
edition = "2021"
publish = false

[dependencies]
serde = { version = "=1.0.229", features = ["derive"] }
serde_json = "=1.0.154"
teloxide = { version = "=0.17.0", default-features = false, features = ["rustls", "macros"] }
tokio = { version = "=1.54.1", features = ["macros", "rt-multi-thread"] }
dotenv = "=0.15.0"
takecell = "<0.1.2"
