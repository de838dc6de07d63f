[package]
name = "j4rs"
version = "0.1.0"
edition = "2021"
publish = false

[dependencies]
jni-sys = "0.3"
lazy_static = "1"
libc = "0.2"
log = "0.4"
serde = { version = "1", features = ["derive"] }
serde_json = "1"
