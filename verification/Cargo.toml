[package]
name = "apollo"
version = "0.1.0"
edition = "2021"
publish = false

[dependencies]
aes-gcm = "0.10"
bcrypt = "0.15"
chrono = "0.4"
crossterm = "0.27"
fern = { version = "0.6", features = ["date-based"] }
hostname = "0.4"
log = "0.4"
prost = "0.12"
ratatui = "0.26"
rpassword = "7"
serde = { version = "1", features = ["derive"] }
serde_json = "1"
sha2 = "0.10"
tokio = { version = "1", features = ["full"] }
tokio-stream = "0.1"
tonic = "0.11"
tui-input = "0.8"
uuid = { version = "1", features = ["v4"] }
