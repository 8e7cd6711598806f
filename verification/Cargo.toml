[package]
name = "sleepp"
version = "0.1.0"
edition = "2021"
publish = false

[dependencies]
clap = { version = "4", features = ["derive", "env"] }
ctrlc = "3"
humantime = "2"
libc = "0.2"
terminal_size = "0.4"
