[package]
name = "audio_fft_core"
version = "0.1.0"
edition = "2021"
publish = false

[dependencies]
rustfft = "*"
num-complex = "=0.4.6"
apodize = "=1.0.0"
