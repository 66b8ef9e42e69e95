[package]
name = "link_scraper"
version = "0.1.0"
edition = "2021"
publish = false

[dependencies]
linkify = "*"
xml-rs = "*"
