[package]
name = "machina"
version = "0.1.0"
edition = "2021"
publish = false

[dependencies]
anyhow = "1"
arboard = { version = "3", default-features = false, features = ["wayland-data-control"] }
base64 = "0.22"
chrono = "0.4"
crossterm = "0.28"
dirs = "5"
flate2 = "1"
image = { version = "0.25", default-features = false, features = ["png", "jpeg", "gif", "webp", "bmp", "ico"] }
jwalk = "0.8"
notify = "6"
ratatui = "0.28"
serde = { version = "1", features = ["derive"] }
serde_json = "1"
syntect = { version = "5", default-features = false, features = ["default-syntaxes", "default-themes", "regex-fancy", "parsing"] }
tar = "0.4"
tokio = { version = "1", features = ["macros", "rt-multi-thread"] }
toml = "0.8"
trash = "5"
zip = { version = "2", default-features = false, features = ["deflate"] }
