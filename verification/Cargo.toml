[package]
name = "t_whisper"
version = "0.1.0"
edition = "2021"
publish = false

[dependencies]
anyhow = "1"
clap = { version = "4", features = ["derive"] }
ctrlc = "3"
hound = "3"
symphonia = "0.5"
whisper-rs = { version = "0.16", default-features = false }
