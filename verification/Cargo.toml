[package]
name = "tokei_badge"
version = "0.1.0"
edition = "2021"
publish = false

[dependencies]
csscolorparser = "*"
rsbadges = "*"
percent-encoding = "*"
tokei = "*"
actix-web = { version = "*", default-features = false, features = ["macros"] }
git2 = { version = "*", default-features = false }
clap = { version = "*", features = ["derive"] }
dotenv = "*"
env_logger = "*"
log = "*"
eyre = "*"
serde = { version = "*", features = ["derive"] }
serde_json = "*"
tempfile = "*"
