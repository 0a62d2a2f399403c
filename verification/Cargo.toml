[package]
name = "wav_recorder"
version = "0.1.0"
edition = "2021"
publish = false

[dependencies]
anyhow = "1"
clap = { version = "3", features = ["derive"] }
cpal = "0.13"
crossterm = "0.25"
hound = "3"
tui = "0.19"
