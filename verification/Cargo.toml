[package]
name = "peers_manager"
version = "0.1.0"
edition = "2021"
publish = false

[dependencies]
actix = "0.13"
log = "0.4"
rand = "0.8"
