[package]
name = "notifier_derive"
version = "0.1.0"
edition = "2021"
publish = false

[dependencies]
heck = "0.4"
linked-hash-map = "0.5"
proc-macro2 = "1"
quote = "1"
syn = { version = "1", features = ["full", "extra-traits"] }
unicode-ident = "1"
