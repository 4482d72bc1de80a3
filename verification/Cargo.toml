[package]
name = "gibbername"
version = "0.1.0"
edition = "2021"
publish = false

[dependencies]
anyhow = "1.0.104"
futures-util = { version = "0.3.34", default-features = false, features = ["alloc"] }
gibbercode = "0.1.0"
hex = "0.4.3"
log = "0.4.34"
melstructs = { version = "0.3.3", default-features = false }
