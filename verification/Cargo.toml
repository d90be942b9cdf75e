[package]
name = "web_audio_control"
version = "0.1.0"
edition = "2021"
publish = false

[dependencies]
cpal = "*"
crossbeam-channel = "0.5"
futures-channel = { version = "0.3", features = ["sink"] }
futures-util = { version = "0.3", features = ["sink"] }
llq = "0.1"
log = "0.4"
vecmath = "1"
