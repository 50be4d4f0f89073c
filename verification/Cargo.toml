[package]
name = "curvectrl"
version = "0.1.0"
edition = "2021"
publish = false

[dependencies]
bytemuck = "*"
i18n-embed = { version = "*", features = ["fluent-system", "desktop-requester"] }
jpeg-encoder = "*"
kamadak-exif = "*"
log = "*"
open = "*"
png = "*"
rawloader = "*"
serde = { version = "*", features = ["derive"] }
thiserror = "*"
tokio = { version = "*", features = ["rt", "rt-multi-thread", "time", "sync", "macros"] }
toml = "*"
