[package]
name = "clitools"
version = "0.1.0"
edition = "2021"
publish = false

[dependencies]
chrono = "0.4"
clap = "4"
csv = "1"
rand = "0.8"
regex = "1"
tabular = "0.2"
users = "0.11"
walkdir = "2"
