[package]
name = "bevy_erm"
version = "0.1.0"
edition = "2021"
publish = false

[dependencies]
generational-arena = "0.2"
bevy_ecs = "0.12"
bevy_app = "0.12"
sqlx = { version = "0.7", default-features = false, features = ["sqlite", "runtime-tokio"] }
futures = "0.3"
async-trait = "0.1"
