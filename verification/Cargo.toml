[package]
name = "snake_engine"
version = "0.1.0"
edition = "2021"
publish = false

[dependencies]
anyhow = "1"
chrono = "0.4"
fern = { version = "0.6", features = ["colored"] }
log = "0.4"
serde = { version = "1", features = ["derive"] }
serde_json = "1"
slab_tree = "0.3"
tokio = { version = "1", features = ["macros", "rt-multi-thread"] }
warp = "0.3"
