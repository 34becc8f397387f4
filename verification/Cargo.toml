[package]
name = "pixofold-core"
version = "0.1.0"
edition = "2021"
publish = false

[dependencies]
crc32fast = "*"
png = "*"
oxipng = { version = "*", default-features = false }
imagequant = { version = "*", default-features = false }
same-file = "*"
tempfile = "*"
serde = { version = "*", features = ["derive"] }
serde_json = "*"

[dev-dependencies]
