[package]
name = "invoice_etl"
version = "0.1.0"
edition = "2021"
publish = false

[dependencies]
csv = "*"
pdf-extract = "*"
