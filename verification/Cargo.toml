[package]
name = "cthulhu"
version = "0.1.0"
edition = "2021"
publish = false

[dependencies]
regex = "1"
serde_json = "1"
serde = { version = "1", features = ["derive"] }
clap = { version = "4", features = ["derive"] }
color-eyre = "0.6"
tracing = "0.1"
tracing-subscriber = "0.3"
toml = "0.8"
hcl-rs = "0.19"
chrono = { version = "0.4", features = ["serde"] }
rumqttc = "0.25"
rexpect = "*"
serialport = { version = "4", default-features = false }
strip-ansi-escapes = "0.2"
url = "2"
