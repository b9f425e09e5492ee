[package]
name = "git_date_modifier"
version = "0.1.0"
edition = "2021"
publish = false

[dependencies]
chrono = "*"
