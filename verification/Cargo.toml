[package]
name = "aoc"
version = "0.1.0"
edition = "2021"
publish = false

[dependencies]
chrono = "0.4"
chrono-humanize = "*"
clap = "2"
failure = "0.1"
itertools = "*"
preferences = "*"
reqwest = { version = "0.12", features = ["blocking"] }
serde_json = "1"
term-painter = "*"
