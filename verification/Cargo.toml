[package]
name = "category_spider"
version = "0.1.0"
edition = "2021"
publish = false

[dependencies]
kuchiki = "0.8"
url = "1"
hyper = "0.10"
getopts = "0.2"
postgres = "*"
