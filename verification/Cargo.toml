[package]
name = "loc_tracker"
version = "0.1.0"
edition = "2021"
publish = false

[dependencies]
chrono = "0.4"
git2 = { version = "*", default-features = false }
notify = "4"
sqlx = { version = "0.7", default-features = false, features = ["runtime-tokio", "sqlite"] }
structopt = "0.3"
tokio = { version = "1", features = ["macros", "rt-multi-thread"] }
