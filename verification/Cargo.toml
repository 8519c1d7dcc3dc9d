[package]
name = "apple_notes_rs_lib"
version = "0.1.0"
edition = "2021"
publish = false

[dependencies]
chrono = "=0.4.45"
crossterm = "=0.25.0"
imap = "=2.4.1"
itertools = "=0.15.0"
mailparse = "=0.18.0"
native-tls = "=0.2.18"
tui = "=0.19.0"
uuid = { version = "=1.29.0", features = ["v4"] }

[dev-dependencies]
regex = "=1.13.1"
