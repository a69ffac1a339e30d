[package]
name = "routing"
version = "0.1.0"
edition = "2021"
publish = false

[dependencies]
crossbeam-channel = "0.3"
itertools = "0.8"
log = "0.3"
maidsafe_utilities = "0.18"
unwrap = "1.2"
