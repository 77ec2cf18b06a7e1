[package]
name = "beer_styles"
version = "0.1.0"
edition = "2021"
publish = false

[dependencies]
rusted_cypher = "*"
