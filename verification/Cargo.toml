[package]
name = "datastore"
version = "0.1.0"
edition = "2021"
publish = false

[dependencies]
async-trait = "0.1"
asyncsync = "*"
proc-macro2 = "1"
quote = "1"
syn = { version = "1", features = ["full", "extra-traits"] }
