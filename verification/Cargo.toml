[package]
name = "ai_terminal"
version = "0.1.0"
edition = "2021"
publish = false

[dependencies]
dirs-next = "2"
colored = "2"
dotenvy = "0.15"
reqwest = { version = "0.12", default-features = false, features = ["json"] }
serde = { version = "1", features = ["derive"] }
serde_json = "1"
thiserror = "1"
tokio = { version = "1", features = ["macros", "rt-multi-thread"] }
