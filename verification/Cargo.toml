[package]
name = "proxmox-api-macro"
version = "0.1.0"
edition = "2021"
publish = false

[dependencies]
anyhow = "1"
getrandom = "0.2"
proc-macro2 = "1"
quote = "1"
syn = { version = "1", features = ["full"] }
