[package]
name = "mail_forwarder"
version = "0.1.0"
edition = "2021"
publish = false

[dependencies]
addr = "0.15"
anyhow = "1"
clap = { version = "3", features = ["derive"] }
imap = "2"
lettre = "0.10"
log = "0.4"
native-tls = "0.2"
simple_logger = "*"
