[package]
name = "task_core"
version = "0.1.0"
edition = "2021"
publish = false

[dependencies]
chrono = "0.4"
comfy-table = "7"
sqlx = { version = "0.8", default-features = false, features = ["runtime-tokio", "mysql", "chrono", "macros"] }
tokio = { version = "1", features = ["macros", "rt-multi-thread", "time"] }
clap = { version = "4", features = ["derive"] }
anyhow = "1"
thiserror = "2"
dirs = "5"
dotenvy = "0.15"
notify-rust = "4"
