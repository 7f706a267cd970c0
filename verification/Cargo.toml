[package]
name = "tlspuffin"
version = "0.1.0"
edition = "2021"
publish = false

[dependencies]
rand = "0.8"
hex = "0.4"
rustls = "0.19"
libafl = { version = "0.8", features = ["tui_monitor"] }
libafl_targets = "0.8"
log = "0.4"
log4rs = "1"
itertools = "0.10"
serde = { version = "1", features = ["derive"] }
cfg-if = "1"
