[package]
name = "eskom_calendar"
version = "0.1.0"
edition = "2021"
publish = false

[dependencies]
regex = "*"
chrono = "*"
clap = { version = "*", features = ["derive"] }
csv = "*"
icalendar = "*"
log = "*"
pretty_env_logger = "*"
rayon = "*"
serde = { version = "*", features = ["derive"] }
serde_yaml = "*"
