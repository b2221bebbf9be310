[package]
name = "mdfried"
version = "0.1.0"
edition = "2021"
publish = false

[dependencies]
clap = { version = "=4.6.7", features = ["cargo"] }
color-eyre = "=0.6.5"
cosmic-text = { version = "=0.19.0", default-features = false, features = ["std", "swash"] }
flexi_logger = { version = "=0.31.10", features = ["buffer_writer"] }
image = { version = "=0.25.10", default-features = false, features = ["png", "jpeg", "gif", "webp"] }
libc = "=0.2.191"
log = "=0.4.34"
ratatui = { version = "=0.30.2", default-features = false, features = ["crossterm"] }
ratatui-image = { version = "=11.1.0", default-features = false, features = ["crossterm"] }
ratskin = "=0.3.1"
regex = "=1.13.1"
reqwest = { version = "=0.13.5", default-features = false }
termimad = "=0.34.1"
tokio = { version = "=1.54.1", features = ["rt-multi-thread", "sync"] }
unicode-width = "=0.2.2"
