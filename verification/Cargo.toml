[package]
name = "syb_tracker"
version = "0.1.0"
edition = "2021"
publish = false

[dependencies]
getch = "0.3"
rodio = { version = "0.17", default-features = false }
