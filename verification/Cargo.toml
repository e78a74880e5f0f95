[package]
name = "rsvim_core"
version = "0.1.0"
edition = "2021"
publish = false

[dependencies]
ascii = "1"
clap = { version = "4", features = ["derive"] }
compact_str = "0.8"
crossterm = { version = "0.28", features = ["event-stream"] }
futures = "0.3"
parking_lot = "0.12"
path-absolutize = "3"
regex = "1"
ropey = "1"
tokio = { version = "1", features = ["rt-multi-thread", "macros", "sync", "time"] }
tracing = "0.1"
unicode-segmentation = "1"
unicode-width = "0.2"
