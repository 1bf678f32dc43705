[package]
name = "cmd_dashboard"
version = "0.1.0"
edition = "2021"
publish = false

[dependencies]
chrono = "*"
horrorshow = "*"
iron = "*"
log = "*"
logger = "*"
mount = "*"
router = "*"
serde = { version = "1", features = ["derive"] }
serde_yaml = "*"
simple_logger = "*"
staticfile = "*"
