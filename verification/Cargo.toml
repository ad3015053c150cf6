[package]
name = "gameboy_emu"
version = "0.1.0"
edition = "2021"
publish = false

[dependencies]
bitlab = "*"
rustyline = "*"
ws = "*"
websocket = { version = "*", default-features = false, features = ["sync"] }
