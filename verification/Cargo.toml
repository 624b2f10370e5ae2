[package]
name = "hab"
version = "0.1.0"
edition = "2021"
publish = false

[dependencies]
clap = "2.33"
futures = "0.3"
url = "2"
widestring = "0.4"
winapi = { version = "0.3", features = ["minwindef", "winuser"] }
winreg = "0.7"
