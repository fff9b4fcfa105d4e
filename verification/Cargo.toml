[package]
name = "dtrpg-ui"
version = "0.1.0"
edition = "2021"
publish = false

[dependencies]
chrono = "0.4"
open = "5"
zip = { version = "*", default-features = false, features = ["deflate"] }
lopdf = { version = "*", default-features = false }
image = { version = "0.25", default-features = false, features = ["png", "jpeg", "gif", "webp", "bmp"] }
thiserror = "2"
tracing = "0.1"
