[package]
name = "map_preview"
version = "0.1.0"
edition = "2021"
publish = false

[dependencies]
image = { version = "=0.24.9", default-features = false, features = ["png"] }
unicode-segmentation = "=1.13.3"
actix-web = { version = "=4.18.1", default-features = false, features = ["macros"] }
sqlx = { version = "=0.7.4", default-features = false, features = ["postgres", "runtime-tokio", "chrono"] }
chrono = { version = "=0.4.45", default-features = false }
tokio = { version = "=1.54.1", features = ["fs", "sync", "net", "io-util", "time", "rt-multi-thread", "macros"] }
serde = { version = "=1.0.229", features = ["derive"] }
log = "=0.4.34"
ab_glyph = "=0.2.32"
