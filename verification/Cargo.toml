[package]
name = "org_agenda"
version = "0.1.0"
edition = "2021"
publish = false

[dependencies]
chrono = "0.4"
orgize = { version = "0.9", features = ["chrono"] }
tui = "*"
