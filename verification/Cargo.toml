[package]
name = "caldav_tasks"
version = "0.1.0"
edition = "2021"
publish = false

[dependencies]
base64 = "*"
url = "*"
xmltree = "*"
ureq = "*"
toml = "*"
chrono = "*"
