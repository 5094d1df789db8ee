[package]
name = "gitarena"
version = "0.1.0"
edition = "2021"
publish = false

[dependencies]
uuid = { version = "=1.29.0", features = ["v7"] }
url = "=2.5.8"
qstring = "=0.7.2"
hex = "=0.4.3"
serde = { version = "=1.0.229", features = ["derive"] }
serde_json = "=1.0.154"
chrono = "=0.4.45"
git2 = { version = "=0.21.0", default-features = false }
sha2 = "=0.11.1"
infer = "=0.22.0"
dos-date-time = { version = "=0.3.0", features = ["chrono"] }
bstr = "1"
