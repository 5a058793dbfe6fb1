[package]
name = "rpecli"
version = "0.1.0"
edition = "2021"
publish = false

[dependencies]
exe = "*"
pkbuffer = "*"
authenticode = "*"
cms = "*"
bytemuck = "*"
dataview = "*"
hex = "0.4"
md5 = "*"
sha256 = { version = "*", default-features = false }
chrono = "0.4"
entropy = "*"
rust-strings = "*"
phf = { version = "*", features = ["macros"] }
bitflags = "*"
derivative = "*"
serde = { version = "1", features = ["derive"] }
serde_json = "1"
clap = { version = "4", features = ["derive"] }
colored = "*"
term-table = "*"
term_size = "*"
indicatif = "*"
human_bytes = "*"
