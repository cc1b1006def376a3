[package]
name = "difftastic"
version = "0.1.0"
edition = "2021"
publish = false

[dependencies]
glob = "0.3"
humansize = "2"
line-numbers = "*"
log = "0.4"
serde_json = "1"
