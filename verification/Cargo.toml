[package]
name = "audio_separator"
version = "0.1.0"
edition = "2021"
publish = false

[dependencies]
symphonia = { version = "=0.5.5", features = ["mp3"] }
hound = "=3.5.1"
rubato = "=0.15.0"
ndarray = "=0.17.2"
num-complex = "=0.4.6"
realfft = "=3.5.1"
ort = { version = "=2.0.0-rc.15", default-features = false, features = ["load-dynamic", "ndarray"] }
dirs = "=7.0.0"
ureq = "=2.12.1"
clap = { version = "=4.6.7", features = ["derive"] }
