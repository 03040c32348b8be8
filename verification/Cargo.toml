[package]
name = "zsh_infinite"
version = "0.1.0"
edition = "2021"
publish = false

[dependencies]
clap = { version = "4", features = ["derive"] }
crossterm = "*"
daemonize = "*"
dialoguer = "*"
directories = "*"
futures = "0.3"
libc = "0.2"
once_cell = "1"
regex = "1"
rkyv = "0.8"
serde = { version = "1", features = ["derive"] }
serde_yaml = "0.9"
shellexpand = "*"
tokio = { version = "1", features = ["full"] }
unicode-width = "*"
zsh-module = "*"
