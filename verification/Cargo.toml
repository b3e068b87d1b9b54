[package]
name = "ascii_video"
version = "0.1.0"
edition = "2021"
publish = false

[dependencies]
image = "0.25"
crossterm = "0.28"
ratatui = "0.29"
rayon = "1"
rodio = "0.20"
ffmpeg-next = "7"
