[package]
name = "firechicken"
version = "0.1.0"
edition = "2021"
publish = false

[dependencies]
anyhow = "=1.0.104"
chrono = "=0.4.45"
clap = { version = "=4.6.7", features = ["derive"] }
file-serve = "=0.3.11"
maud = "=0.26.0"
notify-debouncer-mini = "=0.4.1"
quick-xml = { version = "=0.31.0", features = ["serialize"] }
serde = { version = "=1.0.229", features = ["derive"] }
tempdir = "=0.3.7"
toml = "=0.8.23"
ureq = "=2.12.1"
url = "=2.5.8"
zip = "=0.6.6"
