[package]
name = "registry_ticket_manager"
version = "0.1.0"
edition = "2021"
publish = false

[dependencies]
indexmap = "*"
