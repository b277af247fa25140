[package]
name = "aflpp_cmplog"
version = "0.1.0"
edition = "2021"
publish = false

[dependencies]
libafl = { version = "0.11", default-features = false, features = ["std"] }
libafl_bolts = { version = "0.11", default-features = false, features = ["std"] }
serde = { version = "1", features = ["derive"] }
which = "4"
cmake = "0.1"
