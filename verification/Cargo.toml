[package]
name = "csv_query"
version = "0.1.0"
edition = "2021"
publish = false

[dependencies]
csv = "1"
rusqlite = "*"
clap = "2"
directories = "*"
rustyline = "*"
