[package]
name = "caffi"
version = "0.1.0"
edition = "2021"
publish = false

[dependencies]
argh = "*"
jiff = "*"
libc = "*"
relm4 = "*"
smallvec = "*"
tokio = { version = "*", features = ["fs", "rt", "signal"] }
tracker = "*"
