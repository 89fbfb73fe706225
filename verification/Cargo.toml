[package]
name = "sqlite_xlsx"
version = "0.1.0"
edition = "2021"
publish = false

[dependencies]
calamine = "*"
rusqlite = "*"
xlsxwriter = "*"
